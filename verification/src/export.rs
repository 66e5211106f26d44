//! The join of the two files of a database export into products.
use vstd::prelude::*;
use crate::base::{
    base_extraction, base_skus, base_views, lemma_base_records_are_filed, BaseAnswer, BaseView,
    IntermediateBaseProduct,
};
use crate::error::{AbcParseError, ErrorView};
use crate::posted::{
    lemma_posted_records_are_filed, posted_extraction, posted_views, IntermediatePostedProduct,
    PostedView,
};
use crate::product::{copy_codes, copy_text, copy_texts, AbcProduct, ProductView};
use crate::quantity::Quantity;
use crate::rows::{table, Rows};
use crate::sku_map::BySku;

verus! {

/// A map from the sku of each product to the product.
pub type AbcProductsBySku = BySku<AbcProduct>;

/// The product that a base record and a posted record make together, if they carry
/// the same sku.
pub open spec fn merged(base: BaseView, posted: PostedView) -> Result<ProductView, ErrorView> {
    if base.sku != posted.sku {
        Err(ErrorView::MisMatchedSkus)
    } else {
        Ok(
            ProductView {
                sku: base.sku,
                desc: base.desc,
                upcs: base.upcs,
                list: base.list,
                cost: base.cost,
                stock: posted.stock,
                group: base.group,
                weight: base.weight,
                last_sold: posted.last_sold,
                alt_skus: base.alt_skus,
            },
        )
    }
}

/// The products of the base records under `skus`, taken in that order: each is
/// merged with the posted record under its sku. The first sku without a posted
/// record, or whose two records do not merge, ends the join with its error.
pub open spec fn joined(
    skus: Seq<Seq<char>>,
    base: Map<Seq<char>, BaseView>,
    posted: Map<Seq<char>, PostedView>,
) -> Result<Map<Seq<char>, ProductView>, ErrorView>
    decreases skus.len(),
{
    if skus.len() == 0 {
        Ok(Map::empty())
    } else {
        match joined(skus.drop_last(), base, posted) {
            Err(e) => Err(e),
            Ok(earlier) => if !posted.contains_key(skus.last()) {
                Err(ErrorView::UnmatchedKey(skus.last()))
            } else {
                match merged(base[skus.last()], posted[skus.last()]) {
                    Err(e) => Err(e),
                    Ok(product) => Ok(earlier.insert(skus.last(), product)),
                }
            },
        }
    }
}

/// The outcome of reconciling the two maps, the base map walked in the order `skus`:
/// maps of different size are refused before any record is looked at.
pub open spec fn reconciled(
    skus: Seq<Seq<char>>,
    base: Map<Seq<char>, BaseView>,
    posted: Map<Seq<char>, PostedView>,
) -> Result<Map<Seq<char>, ProductView>, ErrorView> {
    if base.dom().len() != posted.dom().len() {
        Err(ErrorView::RowCountMismatch)
    } else {
        joined(skus, base, posted)
    }
}

/// The products of `map` as contracts speak of them.
pub open spec fn product_views(map: Map<Seq<char>, AbcProduct>) -> Map<Seq<char>, ProductView> {
    map.map_values(|product: AbcProduct| product@)
}

/// What an import of the two files gives: the first error of the `item.data` file,
/// else the first error of the `item_posted.data` file, else the reconciliation of
/// their records.
pub open spec fn db_export(
    item_rows: Seq<Seq<Seq<char>>>,
    item_failure: Option<csv::Error>,
    item_answers: Seq<BaseAnswer>,
    posted_rows: Seq<Seq<Seq<char>>>,
    posted_failure: Option<csv::Error>,
    posted_answers: Seq<Option<Quantity>>,
) -> Result<Map<Seq<char>, ProductView>, ErrorView> {
    match base_extraction(item_rows, item_failure, item_answers) {
        Err(e) => Err(e),
        Ok(base) => match posted_extraction(posted_rows, posted_failure, posted_answers) {
            Err(e) => Err(e),
            Ok(posted) => reconciled(base_skus(item_rows, item_answers), base, posted),
        },
    }
}

/// An error among the first `n` skus is the error of the whole join.
pub proof fn lemma_join_error_stays(
    skus: Seq<Seq<char>>,
    base: Map<Seq<char>, BaseView>,
    posted: Map<Seq<char>, PostedView>,
    n: int,
)
    requires
        0 <= n <= skus.len(),
        joined(skus.take(n), base, posted) is Err,
    ensures
        joined(skus, base, posted) == joined(skus.take(n), base, posted),
    decreases skus.len() - n,
{
    if n < skus.len() {
        assert(skus.take(n + 1).drop_last() == skus.take(n));
        lemma_join_error_stays(skus, base, posted, n + 1);
    } else {
        assert(skus.take(n) == skus);
    }
}

/// Reconciliation, for maps in which each record is filed under its own sku, and a
/// walk `skus` that names each sku of the base map once.
///
/// Maps of different size give `RowCountMismatch`. Maps of one size, where every
/// base sku has a posted record, give a product for each base sku and no other: as
/// many products as there are base records, each the merge of the two records of its
/// sku. Where some base sku has no posted record, the outcome is `UnmatchedKey` with
/// such a sku.
pub proof fn lemma_reconciliation(
    skus: Seq<Seq<char>>,
    base: Map<Seq<char>, BaseView>,
    posted: Map<Seq<char>, PostedView>,
)
    requires
        skus.no_duplicates(),
        skus.to_set() == base.dom(),
        base.dom().finite(),
        posted.dom().finite(),
        forall|sku: Seq<char>| base.contains_key(sku) ==> (#[trigger] base[sku]).sku == sku,
        forall|sku: Seq<char>| posted.contains_key(sku) ==> (#[trigger] posted[sku]).sku == sku,
    ensures
        base.dom().len() != posted.dom().len() ==> reconciled(skus, base, posted) == Err::<
            Map<Seq<char>, ProductView>,
            ErrorView,
        >(ErrorView::RowCountMismatch),
        base.dom().len() == posted.dom().len() && base.dom().subset_of(posted.dom()) ==> {
            &&& reconciled(skus, base, posted) matches Ok(products)
            &&& products.dom() == base.dom()
            &&& products.dom().len() == base.dom().len()
            &&& forall|sku: Seq<char>|
                base.contains_key(sku) ==> Ok::<ProductView, ErrorView>(#[trigger] products[sku])
                    == merged(base[sku], posted[sku])
        },
        base.dom().len() == posted.dom().len() && !base.dom().subset_of(posted.dom()) ==> {
            &&& reconciled(skus, base, posted) matches Err(ErrorView::UnmatchedKey(sku))
            &&& base.contains_key(sku)
            &&& !posted.contains_key(sku)
        },
{
    lemma_join(skus, base, posted, skus.len() as int);
    assert(skus.take(skus.len() as int) == skus);
    if base.dom().subset_of(posted.dom()) {
        assert forall|i: int| 0 <= i < skus.len() implies posted.contains_key(
            #[trigger] skus[i],
        ) by {
            assert(skus.to_set().contains(skus[i]));
        }
        let products = joined(skus, base, posted)->Ok_0;
        assert(products.dom() =~= base.dom()) by {
            assert forall|sku: Seq<char>| products.contains_key(sku) <==> base.contains_key(
                sku,
            ) by {
                if base.contains_key(sku) {
                    assert(skus.to_set().contains(sku));
                }
            }
        }
        assert forall|sku: Seq<char>| base.contains_key(sku) implies Ok::<
            ProductView,
            ErrorView,
        >(#[trigger] products[sku]) == merged(base[sku], posted[sku]) by {
            assert(skus.to_set().contains(sku));
        }
    } else {
        let missing = choose|sku: Seq<char>| base.contains_key(sku) && !posted.contains_key(sku);
        assert(skus.to_set().contains(missing));
        let at = choose|i: int| 0 <= i < skus.len() && skus[i] == missing;
        assert(!posted.contains_key(skus[at]));
    }
}

/// An import, in terms of the records of its two files.
///
/// Where a file gives an error, that is the outcome, the `item.data` file first.
/// Else files with different numbers of skus give `RowCountMismatch`; files with the
/// same number, where every sku of the `item.data` file has a record in the
/// `item_posted.data` file, give one product for each sku, merged of its two
/// records; and where some sku has none, the outcome is `UnmatchedKey` with such a
/// sku. The records of one sku always merge.
pub proof fn lemma_import(
    item_rows: Seq<Seq<Seq<char>>>,
    item_failure: Option<csv::Error>,
    item_answers: Seq<BaseAnswer>,
    posted_rows: Seq<Seq<Seq<char>>>,
    posted_failure: Option<csv::Error>,
    posted_answers: Seq<Option<Quantity>>,
)
    ensures
        ({
            let outcome = db_export(
                item_rows,
                item_failure,
                item_answers,
                posted_rows,
                posted_failure,
                posted_answers,
            );
            match base_extraction(item_rows, item_failure, item_answers) {
                Err(e) => outcome == Err::<Map<Seq<char>, ProductView>, ErrorView>(e),
                Ok(base) => match posted_extraction(posted_rows, posted_failure, posted_answers) {
                    Err(e) => outcome == Err::<Map<Seq<char>, ProductView>, ErrorView>(e),
                    Ok(posted) => {
                        &&& outcome != Err::<Map<Seq<char>, ProductView>, ErrorView>(
                            ErrorView::MisMatchedSkus,
                        )
                        &&& base.dom().len() != posted.dom().len() ==> outcome == Err::<
                            Map<Seq<char>, ProductView>,
                            ErrorView,
                        >(ErrorView::RowCountMismatch)
                        &&& base.dom().len() == posted.dom().len() && base.dom().subset_of(
                            posted.dom(),
                        ) ==> {
                            &&& outcome matches Ok(products)
                            &&& products.dom() == base.dom()
                            &&& products.dom().len() == base.dom().len()
                            &&& forall|sku: Seq<char>|
                                base.contains_key(sku) ==> Ok::<ProductView, ErrorView>(
                                    #[trigger] products[sku],
                                ) == merged(base[sku], posted[sku])
                        }
                        &&& base.dom().len() == posted.dom().len() && !base.dom().subset_of(
                            posted.dom(),
                        ) ==> {
                            &&& outcome matches Err(ErrorView::UnmatchedKey(sku))
                            &&& base.contains_key(sku)
                            &&& !posted.contains_key(sku)
                        }
                    },
                },
            }
        }),
{
    lemma_base_records_are_filed(item_rows, item_answers);
    lemma_posted_records_are_filed(posted_rows, posted_answers);
    if let Ok(base) = base_extraction(item_rows, item_failure, item_answers) {
        if let Ok(posted) = posted_extraction(posted_rows, posted_failure, posted_answers) {
            lemma_reconciliation(base_skus(item_rows, item_answers), base, posted);
        }
    }
}

/// The join of the first `n` skus of a walk: where each of them has a posted record,
/// it is the map of their merged records; else it is `UnmatchedKey` with the first
/// of them that has none.
proof fn lemma_join(
    skus: Seq<Seq<char>>,
    base: Map<Seq<char>, BaseView>,
    posted: Map<Seq<char>, PostedView>,
    n: int,
)
    requires
        0 <= n <= skus.len(),
        skus.to_set() == base.dom(),
        forall|sku: Seq<char>| base.contains_key(sku) ==> (#[trigger] base[sku]).sku == sku,
        forall|sku: Seq<char>| posted.contains_key(sku) ==> (#[trigger] posted[sku]).sku == sku,
    ensures
        (forall|i: int| 0 <= i < n ==> posted.contains_key(#[trigger] skus[i])) ==> {
            &&& joined(skus.take(n), base, posted) matches Ok(products)
            &&& forall|sku: Seq<char>|
                products.contains_key(sku) <==> skus.take(n).contains(sku)
            &&& forall|sku: Seq<char>|
                skus.take(n).contains(sku) ==> Ok::<ProductView, ErrorView>(
                    #[trigger] products[sku],
                ) == merged(base[sku], posted[sku])
        },
        (exists|i: int| 0 <= i < n && !posted.contains_key(#[trigger] skus[i])) ==> {
            &&& joined(skus.take(n), base, posted) matches Err(ErrorView::UnmatchedKey(sku))
            &&& skus.take(n).contains(sku)
            &&& base.contains_key(sku)
            &&& !posted.contains_key(sku)
        },
    decreases n,
{
    if n > 0 {
        lemma_join(skus, base, posted, n - 1);
        let shorter = skus.take(n - 1);
        let longer = skus.take(n);
        let last = skus[n - 1];
        assert(longer.drop_last() == shorter);
        assert(longer.last() == last);
        assert(skus.to_set().contains(last));
        assert(forall|sku: Seq<char>|
            longer.contains(sku) <==> (shorter.contains(sku) || sku == last)) by {
            assert(longer == shorter.push(last));
            assert forall|sku: Seq<char>| longer.contains(sku) implies (shorter.contains(sku)
                || sku == last) by {
                let i = choose|i: int| 0 <= i < longer.len() && longer[i] == sku;
                if i < n - 1 {
                    assert(shorter[i] == sku);
                }
            }
            assert forall|sku: Seq<char>| (shorter.contains(sku) || sku == last) implies
                longer.contains(sku) by {
                if shorter.contains(sku) {
                    let i = choose|i: int| 0 <= i < shorter.len() && shorter[i] == sku;
                    assert(longer[i] == sku);
                } else {
                    assert(longer[n - 1] == sku);
                }
            }
        }
        if exists|i: int| 0 <= i < n - 1 && !posted.contains_key(#[trigger] skus[i]) {
        } else if !posted.contains_key(last) {
            assert(forall|i: int| 0 <= i < n - 1 ==> posted.contains_key(#[trigger] skus[i]));
        } else {
            assert forall|i: int| 0 <= i < n implies posted.contains_key(#[trigger] skus[i]) by {
                if i < n - 1 {
                } else {
                    assert(skus[i] == last);
                }
            }
            assert(forall|i: int| 0 <= i < n - 1 ==> posted.contains_key(#[trigger] skus[i]));
        }
    } else {
        assert(skus.take(0).len() == 0);
    }
}

impl AbcProduct {
    /// Makes the product of a base record and a posted record of the same sku.
    ///
    /// Records with different skus are refused with `MisMatchedSkus`.
    pub fn try_from(base: &IntermediateBaseProduct, posted: &IntermediatePostedProduct) -> (product:
        Result<AbcProduct, AbcParseError>)
        ensures
            match merged(base@, posted@) {
                Ok(expected) => product matches Ok(p) && p@ == expected,
                Err(expected) => product matches Err(e) && e@ == expected,
            },
    {
        if base.sku != posted.sku {
            return Err(AbcParseError::MisMatchedSkus);
        }
        Ok(
            AbcProduct::from_parts(
                base.sku.clone(),
                base.desc.clone(),
                copy_codes(&base.upcs),
                base.list,
                base.cost,
                posted.stock,
                copy_text(&base.group),
                base.weight,
                posted.last_sold,
                copy_texts(base.alt_skus.as_slice()),
            ),
        )
    }

    /// Makes the products of a database export from the rows of its two files,
    /// `items` of the `item.data` file and `posted` of the `item_posted.data` file,
    /// and the answers to the questions of their rows.
    ///
    /// The first error of the `item.data` file ends the import, else the first error
    /// of the `item_posted.data` file, else that of their reconciliation.
    pub fn from_db_export(
        items: Rows,
        item_answers: &Vec<BaseAnswer>,
        posted: Rows,
        posted_answers: &Vec<Option<Quantity>>,
    ) -> (products: Result<AbcProductsBySku, AbcParseError>)
        ensures
            match db_export(
                table(items.rows@),
                items.failure,
                item_answers@,
                table(posted.rows@),
                posted.failure,
                posted_answers@,
            ) {
                Ok(expected) => products matches Ok(map) && product_views(map@) == expected,
                Err(expected) => products matches Err(e) && e@ == expected,
            },
    {
        let base_products = IntermediateBaseProduct::parse_item_data(items, item_answers)?;
        let posted_products = IntermediatePostedProduct::parse_item_posted_data(
            posted,
            posted_answers,
        )?;
        AbcProduct::reconcile(&base_products, &posted_products)
    }

    /// Joins the records of the two files into products, one for each sku.
    ///
    /// The two maps must hold the same number of records, else the outcome is
    /// `RowCountMismatch`. The base map is then walked; a sku without a record in the
    /// posted map ends the join with `UnmatchedKey` and that sku, and two records
    /// that do not merge end it with their error. No product is returned unless all
    /// are.
    pub fn reconcile(
        base: &BySku<IntermediateBaseProduct>,
        posted: &BySku<IntermediatePostedProduct>,
    ) -> (products: Result<AbcProductsBySku, AbcParseError>)
        ensures
            match reconciled(base.keys(), base_views(base@), posted_views(posted@)) {
                Ok(expected) => products matches Ok(map) && product_views(map@) == expected
                    && map.keys() == base.keys(),
                Err(expected) => products matches Err(e) && e@ == expected,
            },
    {
        let ghost b = base_views(base@);
        let ghost p = posted_views(posted@);
        assert(b.dom() =~= base@.dom());
        assert(p.dom() =~= posted@.dom());
        let count = base.len();
        if count != posted.len() {
            return Err(AbcParseError::RowCountMismatch);
        }
        let mut products: AbcProductsBySku = BySku::new();
        assert(product_views(products@) =~= Map::<Seq<char>, ProductView>::empty());
        let mut i: usize = 0;
        while i < count
            invariant
                i <= count,
                count == base.keys().len(),
                base.keys().no_duplicates(),
                b == base_views(base@),
                p == posted_views(posted@),
                b.dom().len() == p.dom().len(),
                products.keys() == base.keys().take(i as int),
                joined(base.keys().take(i as int), b, p) == Ok::<
                    Map<Seq<char>, ProductView>,
                    ErrorView,
                >(product_views(products@)),
            decreases count - i,
        {
            let ghost shorter = base.keys().take(i as int);
            let ghost longer = base.keys().take(i + 1);
            assert(longer.drop_last() == shorter);
            assert(longer.last() == base.keys()[i as int]);
            let entry = match base.entry_at(i) {
                Some(entry) => entry,
                None => {
                    return Err(AbcParseError::RowCountMismatch);
                },
            };
            let merged = match posted.get(entry.sku.as_str()) {
                Some(record) => AbcProduct::try_from(&entry.value, record),
                None => Err(AbcParseError::UnmatchedKey(entry.sku.clone())),
            };
            match merged {
                Ok(product) => {
                    let ghost before = products@;
                    assert(!shorter.contains(entry.sku@));
                    products.insert(entry.sku.clone(), product);
                    assert(product_views(products@) =~= product_views(before).insert(
                        entry.sku@,
                        product@,
                    ));
                    assert(longer == shorter.push(entry.sku@));
                },
                Err(e) => {
                    proof {
                        assert(joined(longer, b, p) == Err::<
                            Map<Seq<char>, ProductView>,
                            ErrorView,
                        >(e@));
                        lemma_join_error_stays(base.keys(), b, p, i + 1);
                    }
                    return Err(e);
                },
            }
            i += 1;
        }
        assert(base.keys().take(i as int) == base.keys());
        Ok(products)
    }
}

} // verus!
