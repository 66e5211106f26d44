//! The product of the inventory, and the builder that guards its construction.
use vstd::prelude::*;
use vstd::std_specs::convert::FromSpec;
use vstd::std_specs::convert::FromSpecImpl;
use chrono::NaiveDate;
use rust_decimal::Decimal;
use crate::barcode::{codes, Barcode};
use crate::error::{AbcParseError, ErrorView};
use crate::quantity::Quantity;
use crate::text::texts;

verus! {

/// A product as contracts speak of it.
pub struct ProductView {
    pub sku: Seq<char>,
    pub desc: Seq<char>,
    pub upcs: Seq<Seq<char>>,
    pub list: Decimal,
    pub cost: Decimal,
    pub stock: Quantity,
    pub group: Option<Seq<char>>,
    pub weight: Option<Quantity>,
    pub last_sold: Option<NaiveDate>,
    pub alt_skus: Seq<Seq<char>>,
}

/// A builder as contracts speak of it: what has been set so far.
pub struct BuilderView {
    pub sku: Option<Seq<char>>,
    pub desc: Option<Seq<char>>,
    pub upcs: Seq<Seq<char>>,
    pub list: Option<Decimal>,
    pub cost: Option<Decimal>,
    pub stock: Option<Quantity>,
    pub weight: Option<Quantity>,
    pub group: Option<Seq<char>>,
    pub last_sold: Option<NaiveDate>,
    pub alt_skus: Seq<Seq<char>>,
}

/// The characters of `text`, where there is a text.
pub open spec fn text_of(text: Option<String>) -> Option<Seq<char>> {
    match text {
        Some(t) => Some(t@),
        None => None,
    }
}

/// `c` is a letter of the alphabet from A to Z, in either case.
pub open spec fn is_letter(c: char) -> bool {
    ('A' <= c && c <= 'Z') || ('a' <= c && c <= 'z')
}

/// The capital of the letter `c`.
pub open spec fn capital(c: char) -> char {
    if 'a' <= c && c <= 'z' {
        ((c as int) - 32) as char
    } else {
        c
    }
}

/// The builder in which nothing is set.
pub open spec fn empty_builder() -> BuilderView {
    BuilderView {
        sku: None,
        desc: None,
        upcs: Seq::empty(),
        list: None,
        cost: None,
        stock: None,
        weight: None,
        group: None,
        last_sold: None,
        alt_skus: Seq::empty(),
    }
}

/// The builder in which everything is set as `product` has it.
pub open spec fn seeded(product: ProductView) -> BuilderView {
    BuilderView {
        sku: Some(product.sku),
        desc: Some(product.desc),
        upcs: product.upcs,
        list: Some(product.list),
        cost: Some(product.cost),
        stock: Some(product.stock),
        weight: product.weight,
        group: product.group,
        last_sold: product.last_sold,
        alt_skus: product.alt_skus,
    }
}

/// A builder is complete when sku, description, list price, cost and stock are set.
pub open spec fn is_complete(builder: BuilderView) -> bool {
    &&& builder.sku is Some
    &&& builder.desc is Some
    &&& builder.list is Some
    &&& builder.cost is Some
    &&& builder.stock is Some
}

/// The error for the required field `field`, missing from a builder.
pub open spec fn missing(field: Seq<char>) -> ErrorView {
    ErrorView::MissingField(field, 0)
}

/// What building gives: the product with the fields of a complete builder, or the
/// error that names the first required field that is not set, in the order sku,
/// description, list price, cost, stock.
pub open spec fn built(builder: BuilderView) -> Result<ProductView, ErrorView> {
    if builder.sku is None {
        Err(missing("sku"@))
    } else if builder.desc is None {
        Err(missing("desc"@))
    } else if builder.list is None {
        Err(missing("list"@))
    } else if builder.cost is None {
        Err(missing("cost"@))
    } else if builder.stock is None {
        Err(missing("stock"@))
    } else {
        Ok(
            ProductView {
                sku: builder.sku->0,
                desc: builder.desc->0,
                upcs: builder.upcs,
                list: builder.list->0,
                cost: builder.cost->0,
                stock: builder.stock->0,
                group: builder.group,
                weight: builder.weight,
                last_sold: builder.last_sold,
                alt_skus: builder.alt_skus,
            },
        )
    }
}

/// Building from a builder that was seeded from a product gives that product again.
pub proof fn lemma_rebuilding_is_identity(product: ProductView)
    ensures
        built(seeded(product)) == Ok::<ProductView, ErrorView>(product),
{
}

/// Building succeeds exactly for complete builders; the optional fields (group,
/// weight, last-sold date, alternate skus, barcodes) never stand in its way. Where
/// one required field alone is not set, the error names that field.
pub proof fn lemma_build_needs_the_required_fields(builder: BuilderView)
    ensures
        built(builder) is Ok <==> is_complete(builder),
        is_complete(builder) ==> built(
            BuilderView {
                upcs: Seq::empty(),
                weight: None,
                group: None,
                last_sold: None,
                alt_skus: Seq::empty(),
                ..builder
            },
        ) is Ok,
        is_complete(builder) ==> {
            &&& built(BuilderView { sku: None, ..builder }) == Err::<ProductView, ErrorView>(
                missing("sku"@),
            )
            &&& built(BuilderView { desc: None, ..builder }) == Err::<ProductView, ErrorView>(
                missing("desc"@),
            )
            &&& built(BuilderView { list: None, ..builder }) == Err::<ProductView, ErrorView>(
                missing("list"@),
            )
            &&& built(BuilderView { cost: None, ..builder }) == Err::<ProductView, ErrorView>(
                missing("cost"@),
            )
            &&& built(BuilderView { stock: None, ..builder }) == Err::<ProductView, ErrorView>(
                missing("stock"@),
            )
        },
{
}

/// A copy of `v`.
pub fn copy_texts(v: &[String]) -> (copy: Vec<String>)
    ensures
        texts(copy@) == texts(v@),
{
    let mut copy: Vec<String> = Vec::new();
    let mut i: usize = 0;
    while i < v.len()
        invariant
            i <= v.len(),
            copy@ == v@.take(i as int),
        decreases v.len() - i,
    {
        copy.push(v[i].clone());
        i += 1;
    }
    assert(v@.take(i as int) == v@);
    copy
}

/// A copy of `v`.
pub fn copy_codes(v: &Vec<Barcode>) -> (copy: Vec<Barcode>)
    ensures
        codes(copy@) == codes(v@),
{
    let mut copy: Vec<Barcode> = Vec::new();
    let mut i: usize = 0;
    while i < v.len()
        invariant
            i <= v.len(),
            codes(copy@) == codes(v@).take(i as int),
        decreases v.len() - i,
    {
        let ghost before = codes(copy@);
        copy.push(v[i].clone());
        assert(codes(copy@) =~= before.push(v@[i as int]@));
        assert(codes(v@).take(i + 1) =~= before.push(v@[i as int]@));
        i += 1;
    }
    assert(codes(v@).take(i as int) == codes(v@));
    copy
}

/// A copy of `text`.
pub fn copy_text(text: &Option<String>) -> (copy: Option<String>)
    ensures
        text_of(copy) == text_of(*text),
{
    match text {
        Some(t) => Some(t.clone()),
        None => None,
    }
}

/// A product or inventory item of the accounting software.
///
/// A product always has its sku, its description, its list price, its cost and its
/// stock level; group, weight, last-sold date, barcodes and alternate skus may be
/// absent. It is made by [`AbcProductBuilder::build`] and does not change afterwards.
#[derive(Debug)]
pub struct AbcProduct {
    sku: String,
    desc: String,
    upcs: Vec<Barcode>,
    list: Decimal,
    cost: Decimal,
    stock: Quantity,
    group: Option<String>,
    weight: Option<Quantity>,
    last_sold: Option<NaiveDate>,
    alt_skus: Vec<String>,
}

/// Collects the fields of an [`AbcProduct`] one by one.
pub struct AbcProductBuilder {
    sku: Option<String>,
    desc: Option<String>,
    upcs: Vec<Barcode>,
    list: Option<Decimal>,
    cost: Option<Decimal>,
    stock: Option<Quantity>,
    weight: Option<Quantity>,
    group: Option<String>,
    last_sold: Option<NaiveDate>,
    alt_skus: Vec<String>,
}

impl View for AbcProduct {
    type V = ProductView;

    closed spec fn view(&self) -> ProductView {
        ProductView {
            sku: self.sku@,
            desc: self.desc@,
            upcs: codes(self.upcs@),
            list: self.list,
            cost: self.cost,
            stock: self.stock,
            group: text_of(self.group),
            weight: self.weight,
            last_sold: self.last_sold,
            alt_skus: texts(self.alt_skus@),
        }
    }
}

impl View for AbcProductBuilder {
    type V = BuilderView;

    closed spec fn view(&self) -> BuilderView {
        BuilderView {
            sku: text_of(self.sku),
            desc: text_of(self.desc),
            upcs: codes(self.upcs@),
            list: self.list,
            cost: self.cost,
            stock: self.stock,
            weight: self.weight,
            group: text_of(self.group),
            last_sold: self.last_sold,
            alt_skus: texts(self.alt_skus@),
        }
    }
}

impl Clone for AbcProduct {
    fn clone(&self) -> (copy: AbcProduct)
        ensures
            copy@ == self@,
    {
        AbcProduct {
            sku: self.sku.clone(),
            desc: self.desc.clone(),
            upcs: copy_codes(&self.upcs),
            list: self.list,
            cost: self.cost,
            stock: self.stock,
            group: copy_text(&self.group),
            weight: self.weight,
            last_sold: self.last_sold,
            alt_skus: copy_texts(self.alt_skus.as_slice()),
        }
    }
}

impl AbcProduct {
    /// The product with the given fields.
    pub(crate) fn from_parts(
        sku: String,
        desc: String,
        upcs: Vec<Barcode>,
        list: Decimal,
        cost: Decimal,
        stock: Quantity,
        group: Option<String>,
        weight: Option<Quantity>,
        last_sold: Option<NaiveDate>,
        alt_skus: Vec<String>,
    ) -> (product: AbcProduct)
        ensures
            product@ == (ProductView {
                sku: sku@,
                desc: desc@,
                upcs: codes(upcs@),
                list,
                cost,
                stock,
                group: text_of(group),
                weight,
                last_sold,
                alt_skus: texts(alt_skus@),
            }),
    {
        AbcProduct { sku, desc, upcs, list, cost, stock, group, weight, last_sold, alt_skus }
    }

    /// A builder in which nothing is set.
    pub fn new() -> (builder: AbcProductBuilder)
        ensures
            builder@ == empty_builder(),
    {
        AbcProductBuilder::new()
    }

    /// The product's sku.
    pub fn sku(&self) -> (sku: String)
        ensures
            sku@ == self@.sku,
    {
        self.sku.clone()
    }

    /// The product's description.
    pub fn desc(&self) -> (desc: String)
        ensures
            desc@ == self@.desc,
    {
        self.desc.clone()
    }

    /// The product's barcodes, in the order in which the export lists them.
    pub fn upcs(&self) -> (upcs: Vec<Barcode>)
        ensures
            codes(upcs@) == self@.upcs,
    {
        copy_codes(&self.upcs)
    }

    /// The product's list price.
    pub fn list(&self) -> (list: Decimal)
        ensures
            list == self@.list,
    {
        self.list
    }

    /// The product's cost.
    pub fn cost(&self) -> (cost: Decimal)
        ensures
            cost == self@.cost,
    {
        self.cost
    }

    /// The product's stock level. It may be negative, for backorders and adjustments.
    pub fn stock(&self) -> (stock: Quantity)
        ensures
            stock == self@.stock,
    {
        self.stock
    }

    /// The product's weight in pounds, if one is known.
    pub fn weight(&self) -> (weight: Option<Quantity>)
        ensures
            weight == self@.weight,
    {
        self.weight
    }

    /// The product's discount group, if it has one.
    pub fn group(&self) -> (group: Option<String>)
        ensures
            text_of(group) == self@.group,
    {
        copy_text(&self.group)
    }

    /// The day on which the product was last sold, if it ever was.
    pub fn last_sold(&self) -> (last_sold: Option<NaiveDate>)
        ensures
            last_sold == self@.last_sold,
    {
        self.last_sold
    }

    /// The product's alternate skus, in order; one may occur twice.
    pub fn alt_skus(&self) -> (alt_skus: Vec<String>)
        ensures
            texts(alt_skus@) == self@.alt_skus,
    {
        copy_texts(self.alt_skus.as_slice())
    }
}

impl AbcProductBuilder {
    /// A builder in which nothing is set.
    pub fn new() -> (builder: AbcProductBuilder)
        ensures
            builder@ == empty_builder(),
    {
        let builder = AbcProductBuilder {
            sku: None,
            desc: None,
            upcs: Vec::new(),
            list: None,
            cost: None,
            stock: None,
            weight: None,
            group: None,
            last_sold: None,
            alt_skus: Vec::new(),
        };
        assert(builder@.upcs =~= Seq::empty());
        assert(builder@.alt_skus =~= Seq::empty());
        builder
    }

    /// Sets the sku.
    pub fn with_sku(self, sku: &str) -> (builder: AbcProductBuilder)
        ensures
            builder@ == (BuilderView { sku: Some(sku@), ..self@ }),
    {
        AbcProductBuilder { sku: Some(sku.to_owned()), ..self }
    }

    /// Sets the description.
    pub fn with_desc(self, desc: &str) -> (builder: AbcProductBuilder)
        ensures
            builder@ == (BuilderView { desc: Some(desc@), ..self@ }),
    {
        AbcProductBuilder { desc: Some(desc.to_owned()), ..self }
    }

    /// Sets the list of barcodes.
    pub fn with_upcs(self, upcs: Vec<Barcode>) -> (builder: AbcProductBuilder)
        ensures
            builder@ == (BuilderView { upcs: codes(upcs@), ..self@ }),
    {
        AbcProductBuilder { upcs, ..self }
    }

    /// Adds a barcode at the end of the list of barcodes.
    pub fn add_upc(self, upc: Barcode) -> (builder: AbcProductBuilder)
        ensures
            builder@ == (BuilderView { upcs: self@.upcs.push(upc@), ..self@ }),
    {
        let ghost before = self@;
        let mut builder = self;
        builder.upcs.push(upc);
        assert(builder@.upcs =~= before.upcs.push(upc@));
        builder
    }

    /// Sets the list price.
    pub fn with_list(self, list: Decimal) -> (builder: AbcProductBuilder)
        ensures
            builder@ == (BuilderView { list: Some(list), ..self@ }),
    {
        AbcProductBuilder { list: Some(list), ..self }
    }

    /// Sets the cost.
    pub fn with_cost(self, cost: Decimal) -> (builder: AbcProductBuilder)
        ensures
            builder@ == (BuilderView { cost: Some(cost), ..self@ }),
    {
        AbcProductBuilder { cost: Some(cost), ..self }
    }

    /// Sets the stock level.
    pub fn with_stock(self, stock: Quantity) -> (builder: AbcProductBuilder)
        ensures
            builder@ == (BuilderView { stock: Some(stock), ..self@ }),
    {
        AbcProductBuilder { stock: Some(stock), ..self }
    }

    /// Sets the weight in pounds.
    pub fn with_weight(self, weight: Quantity) -> (builder: AbcProductBuilder)
        ensures
            builder@ == (BuilderView { weight: Some(weight), ..self@ }),
    {
        AbcProductBuilder { weight: Some(weight), ..self }
    }

    /// Sets the discount group to the capital of the letter `group`.
    ///
    /// A character that is no letter from A to Z, in either case, is refused: there is
    /// no builder then, and the caller has to look before it goes on.
    pub fn with_group(self, group: char) -> (builder: Option<AbcProductBuilder>)
        ensures
            builder is Some <==> is_letter(group),
            builder matches Some(b) ==> b@ == (BuilderView {
                group: Some(seq![capital(group)]),
                ..self@
            }),
    {
        if (group < 'A' || group > 'Z') && (group < 'a' || group > 'z') {
            return None;
        }
        let letter: char = if group >= 'a' {
            ((group as u8) - 32) as char
        } else {
            group
        };
        let mut text = String::new();
        text.push(letter);
        assert(text@ =~= seq![capital(group)]);
        Some(AbcProductBuilder { group: Some(text), ..self })
    }

    /// Sets the day on which the product was last sold.
    pub fn with_last_sold(self, last_sold: NaiveDate) -> (builder: AbcProductBuilder)
        ensures
            builder@ == (BuilderView { last_sold: Some(last_sold), ..self@ }),
    {
        AbcProductBuilder { last_sold: Some(last_sold), ..self }
    }

    /// Sets the list of alternate skus.
    pub fn with_alt_skus(self, alt_skus: &[String]) -> (builder: AbcProductBuilder)
        ensures
            builder@ == (BuilderView { alt_skus: texts(alt_skus@), ..self@ }),
    {
        AbcProductBuilder { alt_skus: copy_texts(alt_skus), ..self }
    }

    /// Adds an alternate sku at the end of the list of alternate skus.
    pub fn add_alt_sku(self, alt: &str) -> (builder: AbcProductBuilder)
        ensures
            builder@ == (BuilderView { alt_skus: self@.alt_skus.push(alt@), ..self@ }),
    {
        let ghost before = self@;
        let mut builder = self;
        builder.alt_skus.push(alt.to_owned());
        assert(builder@.alt_skus =~= before.alt_skus.push(alt@));
        builder
    }

    /// Makes the product, if sku, description, list price, cost and stock are set.
    ///
    /// Otherwise the error names the first of these that is not set, with row 0.
    /// Fields that may be absent, and were not set, are absent in the product.
    pub fn build(self) -> (product: Result<AbcProduct, AbcParseError>)
        ensures
            match built(self@) {
                Ok(expected) => product matches Ok(p) && p@ == expected,
                Err(expected) => product matches Err(e) && e@ == expected,
            },
    {
        let AbcProductBuilder {
            sku,
            desc,
            upcs,
            list,
            cost,
            stock,
            weight,
            group,
            last_sold,
            alt_skus,
        } = self;
        let sku = match sku {
            Some(sku) => sku,
            None => {
                return Err(AbcParseError::MissingField("sku".to_owned(), 0));
            },
        };
        let desc = match desc {
            Some(desc) => desc,
            None => {
                return Err(AbcParseError::MissingField("desc".to_owned(), 0));
            },
        };
        let list = match list {
            Some(list) => list,
            None => {
                return Err(AbcParseError::MissingField("list".to_owned(), 0));
            },
        };
        let cost = match cost {
            Some(cost) => cost,
            None => {
                return Err(AbcParseError::MissingField("cost".to_owned(), 0));
            },
        };
        let stock = match stock {
            Some(stock) => stock,
            None => {
                return Err(AbcParseError::MissingField("stock".to_owned(), 0));
            },
        };
        Ok(AbcProduct { sku, desc, upcs, list, cost, stock, group, weight, last_sold, alt_skus })
    }

    /// The builder in which everything is set as `product` has it.
    pub fn from_product(product: AbcProduct) -> (builder: AbcProductBuilder)
        ensures
            builder@ == seeded(product@),
    {
        AbcProductBuilder::from(product)
    }
}

impl From<AbcProduct> for AbcProductBuilder {
    fn from(value: AbcProduct) -> (builder: AbcProductBuilder) {
        AbcProductBuilder {
            sku: Some(value.sku),
            desc: Some(value.desc),
            upcs: value.upcs,
            list: Some(value.list),
            cost: Some(value.cost),
            stock: Some(value.stock),
            weight: value.weight,
            group: value.group,
            last_sold: value.last_sold,
            alt_skus: value.alt_skus,
        }
    }
}

impl FromSpecImpl<AbcProduct> for AbcProductBuilder {
    open spec fn obeys_from_spec() -> bool {
        true
    }

    closed spec fn from_spec(value: AbcProduct) -> AbcProductBuilder {
        AbcProductBuilder {
            sku: Some(value.sku),
            desc: Some(value.desc),
            upcs: value.upcs,
            list: Some(value.list),
            cost: Some(value.cost),
            stock: Some(value.stock),
            weight: value.weight,
            group: value.group,
            last_sold: value.last_sold,
            alt_skus: value.alt_skus,
        }
    }
}

/// The builder that `From` makes of a product is the builder seeded from it.
pub proof fn lemma_from_product_is_seeded(product: AbcProduct)
    ensures
        <AbcProductBuilder as FromSpec<AbcProduct>>::from_spec(product)@ == seeded(product@),
{
}

} // verus!
