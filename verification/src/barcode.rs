//! Checksummed barcodes, and the raw digit runs of the export that become barcodes.
use vstd::prelude::*;
use crate::text::{chars_of, char_is_digit, digit_value, is_digit, runs, split, split_chars, string_of, texts};

verus! {

/// The weight of the digit at `position`, counted from the left and from 0.
pub open spec fn digit_weight(position: int) -> int {
    if position % 2 == 0 {
        1
    } else {
        3
    }
}

/// The sum of the digits of `digits`, each times the weight of its position.
pub open spec fn weighted_sum(digits: Seq<char>) -> int
    decreases digits.len(),
{
    if digits.len() == 0 {
        0
    } else {
        weighted_sum(digits.drop_last()) + digit_weight(digits.len() - 1) * digit_value(digits.last())
    }
}

/// `digits` are thirteen decimal digits, the last of which is the check digit of the
/// twelve before it: the weighted sum of all thirteen is a multiple of ten.
pub open spec fn is_barcode(digits: Seq<char>) -> bool {
    &&& digits.len() == 13
    &&& forall|i: int| 0 <= i < digits.len() ==> is_digit(#[trigger] digits[i])
    &&& weighted_sum(digits) % 10 == 0
}

/// A normalized barcode: thirteen digits with a correct check digit.
#[derive(Debug)]
pub struct Barcode {
    digits: String,
}

impl View for Barcode {
    type V = Seq<char>;

    closed spec fn view(&self) -> Seq<char> {
        self.digits@
    }
}

impl Clone for Barcode {
    fn clone(&self) -> (copy: Barcode)
        ensures
            copy@ == self@,
    {
        proof {
            use_type_invariant(self);
        }
        Barcode { digits: self.digits.clone() }
    }
}

impl Barcode {
    #[verifier::type_invariant]
    spec fn well_formed(self) -> bool {
        is_barcode(self.digits@)
    }

    /// The barcode written as `text`, if `text` is thirteen digits with a correct
    /// check digit.
    pub fn from_digits(text: &str) -> (code: Option<Barcode>)
        ensures
            code is Some <==> is_barcode(text@),
            code matches Some(b) ==> b@ == text@,
    {
        let chars = chars_of(text);
        if chars.len() != 13 {
            return None;
        }
        let mut sum: u32 = 0;
        let mut i: usize = 0;
        while i < 13
            invariant
                i <= 13,
                chars.len() == 13,
                chars@ == text@,
                forall|j: int| 0 <= j < i ==> is_digit(#[trigger] chars@[j]),
                sum == weighted_sum(chars@.take(i as int)),
                sum <= 27 * i,
            decreases 13 - i,
        {
            let c = chars[i];
            if !char_is_digit(c) {
                assert(!is_digit(text@[i as int]));
                return None;
            }
            assert(chars@.take(i + 1).drop_last() == chars@.take(i as int));
            let d: u32 = (c as u32) - 48;
            if i % 2 == 0 {
                sum = sum + d;
            } else {
                sum = sum + 3 * d;
            }
            i += 1;
        }
        assert(chars@.take(13) == chars@);
        if sum % 10 != 0 {
            return None;
        }
        Some(Barcode { digits: string_of(&chars) })
    }

    /// The thirteen digits of the barcode.
    pub fn digits(&self) -> (text: String)
        ensures
            text@ == self@,
            is_barcode(text@),
    {
        proof {
            use_type_invariant(self);
        }
        self.digits.clone()
    }
}

} // verus!

verus! {

/// `c` may stand in the barcode column: a digit, or the comma between two runs.
pub open spec fn is_upc_char(c: char) -> bool {
    is_digit(c) || c == ','
}

/// The barcode column without the characters that are neither digit nor comma.
pub open spec fn upc_text(raw: Seq<char>) -> Seq<char> {
    raw.filter(|c: char| is_upc_char(c))
}

/// What is handed on for normalization in place of the digit run `run`.
///
/// A run of fewer than eleven digits is a dead code and is dropped. A run of exactly
/// eleven digits lacks its check digit: `0` is put in its place, for the checksum
/// routine to correct. A longer run is handed on as it is.
pub open spec fn candidate(run: Seq<char>) -> Option<Seq<char>> {
    if run.len() < 11 {
        None
    } else if run.len() == 11 {
        Some(run.push('0'))
    } else {
        Some(run)
    }
}

/// The candidates of `runs`, in order, the dropped runs left out.
pub open spec fn candidates(runs: Seq<Seq<char>>) -> Seq<Seq<char>>
    decreases runs.len(),
{
    if runs.len() == 0 {
        Seq::empty()
    } else {
        match candidate(runs.last()) {
            Some(c) => candidates(runs.drop_last()).push(c),
            None => candidates(runs.drop_last()),
        }
    }
}

/// The candidates of a barcode column: the column is stripped of everything but
/// digits and commas and cut at the commas, and each run gives its candidate.
pub open spec fn upc_candidates(raw: Seq<char>) -> Seq<Seq<char>> {
    candidates(split(upc_text(raw), ','))
}

/// The entries of `answers` that are present, in order.
pub open spec fn present<T>(answers: Seq<Option<T>>) -> Seq<T>
    decreases answers.len(),
{
    if answers.len() == 0 {
        Seq::empty()
    } else {
        match answers.last() {
            Some(a) => present(answers.drop_last()).push(a),
            None => present(answers.drop_last()),
        }
    }
}

/// The digits of each barcode of `v`, in order.
pub open spec fn codes(v: Seq<Barcode>) -> Seq<Seq<char>> {
    Seq::new(v.len(), |i: int| v[i]@)
}

/// Every candidate has at least twelve digits' room, and no run gives more than one.
pub proof fn lemma_candidates_are_long(runs: Seq<Seq<char>>)
    ensures
        candidates(runs).len() <= runs.len(),
        forall|i: int| 0 <= i < candidates(runs).len() ==> (#[trigger] candidates(runs)[i]).len() >= 12,
    decreases runs.len(),
{
    if runs.len() > 0 {
        lemma_candidates_are_long(runs.drop_last());
    }
}

/// Runs of ten digits or fewer leave no candidate at all.
pub proof fn lemma_short_runs_are_dropped(runs: Seq<Seq<char>>)
    requires
        forall|i: int| 0 <= i < runs.len() ==> (#[trigger] runs[i]).len() < 11,
    ensures
        candidates(runs).len() == 0,
    decreases runs.len(),
{
    if runs.len() > 0 {
        lemma_short_runs_are_dropped(runs.drop_last());
    }
}

/// A run of eleven digits gives a candidate of twelve: the run, then the placeholder.
pub proof fn lemma_eleven_digits_get_a_placeholder(run: Seq<char>)
    requires
        run.len() == 11,
    ensures
        candidate(run) == Some(run + seq!['0']),
        candidates(seq![run]) == seq![run + seq!['0']],
{
    assert(run.push('0') == run + seq!['0']);
    let one = seq![run];
    assert(one.drop_last() == Seq::<Seq<char>>::empty());
    assert(candidates(one.drop_last()) == Seq::<Seq<char>>::empty());
    assert(candidates(one) == Seq::<Seq<char>>::empty().push(run.push('0')));
}

/// The characters of `raw` that may stand in the barcode column.
fn upc_chars(raw: &Vec<char>) -> (kept: Vec<char>)
    ensures
        kept@ == upc_text(raw@),
{
    let mut kept: Vec<char> = Vec::new();
    let mut i: usize = 0;
    proof {
        reveal(Seq::filter);
    }
    while i < raw.len()
        invariant
            i <= raw.len(),
            kept@ == upc_text(raw@.take(i as int)),
        decreases raw.len() - i,
    {
        proof {
            reveal(Seq::filter);
            assert(raw@.take(i + 1).drop_last() == raw@.take(i as int));
        }
        let c = raw[i];
        if char_is_digit(c) || c == ',' {
            kept.push(c);
        }
        i += 1;
    }
    assert(raw@.take(i as int) == raw@);
    kept
}

/// Reads the barcode column `field` and gives the codes to normalize, in column order.
pub fn upc_candidates_of(field: &str) -> (out: Vec<String>)
    ensures
        texts(out@) == upc_candidates(field@),
{
    let raw = chars_of(field);
    let kept = upc_chars(&raw);
    let pieces = split_chars(&kept, ',');
    let mut out: Vec<String> = Vec::new();
    let mut i: usize = 0;
    while i < pieces.len()
        invariant
            i <= pieces.len(),
            texts(out@) == candidates(runs(pieces@).take(i as int)),
        decreases pieces.len() - i,
    {
        let ghost before = texts(out@);
        assert(runs(pieces@).take(i + 1).drop_last() == runs(pieces@).take(i as int));
        assert(runs(pieces@).take(i + 1).last() == pieces@[i as int]@);
        let run = &pieces[i];
        if run.len() == 11 {
            let mut padded = run.clone();
            padded.push('0');
            assert(padded@ == run@.push('0'));
            out.push(string_of(&padded));
            assert(texts(out@) =~= before.push(run@.push('0')));
        } else if run.len() > 11 {
            out.push(string_of(run));
            assert(texts(out@) =~= before.push(run@));
        }
        i += 1;
    }
    assert(runs(pieces@).take(i as int) == runs(pieces@));
    out
}

/// Keeps the barcodes that the checksum routine could make of the candidates, in
/// order: a candidate that it could not read leaves nothing behind.
pub fn normalized(answers: &Vec<Option<Barcode>>) -> (upcs: Vec<Barcode>)
    ensures
        codes(upcs@) == codes(present(answers@)),
{
    let mut upcs: Vec<Barcode> = Vec::new();
    let mut i: usize = 0;
    while i < answers.len()
        invariant
            i <= answers.len(),
            codes(upcs@) == codes(present(answers@.take(i as int))),
        decreases answers.len() - i,
    {
        let ghost before = codes(upcs@);
        assert(answers@.take(i + 1).drop_last() == answers@.take(i as int));
        match &answers[i] {
            Some(code) => {
                let copy = code.clone();
                upcs.push(copy);
                assert(codes(upcs@) =~= before.push(code@));
                assert(codes(present(answers@.take(i + 1))) =~= before.push(code@));
            },
            None => {},
        }
        i += 1;
    }
    assert(answers@.take(i as int) == answers@);
    upcs
}

} // verus!
