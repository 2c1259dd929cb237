use crate::text::{chars_of, push_two_places, two_places};
use vstd::hash_map::StringHashMap;
use vstd::prelude::*;
use vstd::string::*;

verus! {

broadcast use vstd::string::group_string_axioms;

/// One row of a price sheet. Prices are amounts of hundredths: 1050 is 10.50.
#[derive(Clone, Debug, PartialEq, Eq)]
pub struct Product {
    pub barcode: String,
    /// The regular price.
    pub rsp: u64,
    /// The offer price.
    pub offer_rsp: u64,
}

/// One record of the platform's bulk export. The export interleaves products
/// and their variants; a product's own row has none of the optional fields.
#[allow(non_snake_case)]
#[derive(Clone, Debug, PartialEq, Eq)]
pub struct Variant {
    pub id: String,
    pub barcode: Option<String>,
    pub price: Option<String>,
    pub compareAtPrice: Option<String>,
    pub __parentId: Option<String>,
}

/// Which prices a batch line carries.
#[derive(Clone, Copy, Debug, PartialEq, Eq, Structural)]
pub enum Mode {
    /// The offer price as the price, the regular price to compare with.
    WithOffer,
    /// The regular price as the price, and nothing to compare with.
    ClearOffer,
}

/// The lookup table from barcode to platform identifier.
pub struct BarcodeIndex {
    map: StringHashMap<String>,
}

impl View for BarcodeIndex {
    type V = Map<Seq<char>, Seq<char>>;

    closed spec fn view(&self) -> Map<Seq<char>, Seq<char>> {
        Map::new(
            |barcode: Seq<char>| self.map@.contains_key(barcode),
            |barcode: Seq<char>| self.map@[barcode]@,
        )
    }
}

impl BarcodeIndex {
    /// An index without entries.
    pub fn new() -> (index: BarcodeIndex)
        ensures
            index@ == Map::<Seq<char>, Seq<char>>::empty(),
    {
        let index = BarcodeIndex { map: StringHashMap::new() };
        assert(index@ =~= Map::<Seq<char>, Seq<char>>::empty());
        index
    }

    /// Files `id` under `barcode`, in place of what stood there.
    pub fn insert(&mut self, barcode: String, id: String)
        ensures
            final(self)@ == old(self)@.insert(barcode@, id@),
    {
        self.map.insert(barcode, id);
        assert(self@ =~= old(self)@.insert(barcode@, id@));
    }

    /// The identifier filed under `barcode`.
    pub fn get(&self, barcode: &str) -> (found: Option<&String>)
        ensures
            match found {
                Some(id) => self@.contains_key(barcode@) && self@[barcode@] == id@,
                None => !self@.contains_key(barcode@),
            },
    {
        self.map.get(barcode)
    }

    /// The number of barcodes in the index.
    pub fn len(&self) -> (count: usize)
        ensures
            count == self@.len(),
    {
        broadcast use vstd::hash_map::group_hash_map_axioms;

        assert(self@.dom() =~= self.map@.dom());
        self.map.len()
    }
}

/// The number of bytes before the first line feed in `bytes`; all of them
/// where there is none.
pub open spec fn line_end(bytes: Seq<u8>) -> nat
    decreases bytes.len(),
{
    if bytes.len() == 0 || bytes[0] == 10 {
        0
    } else {
        1 + line_end(bytes.skip(1))
    }
}

/// A line without the carriage return that ended it, if one did.
pub open spec fn without_return(line: Seq<u8>) -> Seq<u8> {
    if line.len() > 0 && line.last() == 13 {
        line.drop_last()
    } else {
        line
    }
}

/// The lines of a file: each runs up to a line feed, which is dropped
/// together with a carriage return before it. What follows the last line
/// feed is a line too, as it stands, unless it is empty.
pub open spec fn split_lines(bytes: Seq<u8>) -> Seq<Seq<u8>>
    decreases bytes.len(),
{
    let end = line_end(bytes);
    if bytes.len() == 0 {
        seq![]
    } else if end >= bytes.len() {
        seq![bytes]
    } else {
        seq![without_return(bytes.take(end as int))] + split_lines(bytes.skip(end as int + 1))
    }
}

/// Bytes that are no line feeds count towards the end of the line one by one.
proof fn lemma_line_end_after(bytes: Seq<u8>, start: int, at: int)
    requires
        0 <= start <= at <= bytes.len(),
        forall|k: int| start <= k < at ==> bytes[k] != 10,
    ensures
        line_end(bytes.skip(start)) == at - start + line_end(bytes.skip(at)),
    decreases at - start,
{
    if start < at {
        assert(bytes.skip(start)[0] == bytes[start]);
        assert(bytes.skip(start).skip(1) =~= bytes.skip(start + 1));
        lemma_line_end_after(bytes, start + 1, at);
    }
}

/// Splits the content of a file into its lines.
pub fn read_lines(content: &[u8]) -> (lines: Vec<Vec<u8>>)
    ensures
        lines.deep_view() == split_lines(content@),
{
    let mut lines: Vec<Vec<u8>> = Vec::new();
    let mut line: Vec<u8> = Vec::new();
    let mut start: usize = 0;
    let mut at: usize = 0;
    assert(content@.skip(0) =~= content@);
    assert(lines.deep_view() =~= Seq::<Seq<u8>>::empty());
    while at < content.len()
        invariant
            start <= at <= content.len(),
            line@ == content@.subrange(start as int, at as int),
            forall|k: int| start <= k < at ==> content@[k] != 10,
            split_lines(content@) == lines.deep_view() + split_lines(content@.skip(start as int)),
        decreases content.len() - at,
    {
        let byte = content[at];
        if byte == 10 {
            let ghost rest = content@.skip(start as int);
            proof {
                lemma_line_end_after(content@, start as int, at as int);
                assert(content@.skip(at as int)[0] == 10);
            }
            assert(rest.take(at - start) =~= line@);
            assert(rest.skip(at - start + 1) =~= content@.skip(at + 1));
            let ghost before = lines.deep_view();
            if line.len() > 0 && line[line.len() - 1] == 13 {
                line.pop();
            }
            assert(line@ =~= without_return(rest.take(at - start)));
            lines.push(line);
            assert(lines.deep_view() =~~= before.push(without_return(rest.take(at - start))));
            line = Vec::new();
            start = at + 1;
            assert(content@.subrange(start as int, start as int) =~= line@);
        } else {
            line.push(byte);
            assert(content@.subrange(start as int, at + 1) =~= content@.subrange(
                start as int,
                at as int,
            ).push(byte));
        }
        at += 1;
    }
    let ghost rest = content@.skip(start as int);
    if start < content.len() {
        proof {
            lemma_line_end_after(content@, start as int, content.len() as int);
            assert(rest =~= line@);
        }
        let ghost before = lines.deep_view();
        lines.push(line);
        assert(lines.deep_view() =~~= before.push(rest));
    }
    lines
}

/// The barcode under which a record of the export is filed. A line that
/// could not be read as a record is not filed, nor is a record without a
/// barcode: a product's own row has none.
pub open spec fn filed_barcode(record: Option<Variant>) -> Option<Seq<char>> {
    match record {
        Some(variant) => match variant.barcode {
            Some(barcode) => Some(barcode@),
            None => None,
        },
        None => None,
    }
}

/// The identifier that a record files.
pub open spec fn filed_id(record: Option<Variant>) -> Seq<char>
    recommends
        record is Some,
{
    record->0.id@
}

/// The index that the records of an export give, taken in order: a later
/// record replaces what an earlier one filed under the same barcode.
pub open spec fn barcode_index(records: Seq<Option<Variant>>) -> Map<Seq<char>, Seq<char>>
    decreases records.len(),
{
    if records.len() == 0 {
        Map::empty()
    } else {
        let earlier = barcode_index(records.drop_last());
        match filed_barcode(records.last()) {
            Some(barcode) => earlier.insert(barcode, filed_id(records.last())),
            None => earlier,
        }
    }
}

/// Builds the lookup table from the records of an export, one for each line
/// of the file, `None` where the line could not be read as a record.
pub fn read_jsonl_to_map(records: &Vec<Option<Variant>>) -> (index: BarcodeIndex)
    ensures
        index@ == barcode_index(records@),
{
    let mut index = BarcodeIndex::new();
    let mut i: usize = 0;
    assert(records@.take(0) =~= Seq::<Option<Variant>>::empty());
    while i < records.len()
        invariant
            i <= records.len(),
            index@ == barcode_index(records@.take(i as int)),
        decreases records.len() - i,
    {
        assert(records@.take(i + 1).drop_last() =~= records@.take(i as int));
        assert(records@.take(i + 1).last() == records@[i as int]);
        match &records[i] {
            Some(variant) => {
                if variant.barcode.is_none() && variant.price.is_none()
                    && variant.compareAtPrice.is_none() {
                } else {
                    match &variant.barcode {
                        Some(barcode) => {
                            index.insert(barcode.clone(), variant.id.clone());
                        },
                        None => {},
                    }
                }
            },
            None => {},
        }
        i += 1;
    }
    assert(records@.take(records.len() as int) =~= records@);
    index
}

/// A record with a barcode stands in the index. It stands there under its
/// own identifier unless a later record carries the same barcode.
pub proof fn lemma_index_holds_each_barcode(records: Seq<Option<Variant>>, i: int)
    requires
        0 <= i < records.len(),
        filed_barcode(records[i]) is Some,
    ensures
        barcode_index(records).contains_key(filed_barcode(records[i])->0),
        (forall|j: int|
            i < j < records.len() ==> filed_barcode(records[j]) != filed_barcode(records[i]))
            ==> barcode_index(records)[filed_barcode(records[i])->0] == filed_id(records[i]),
    decreases records.len(),
{
    if i < records.len() - 1 {
        lemma_index_holds_each_barcode(records.drop_last(), i);
    }
}

/// Whatever stands in the index was filed by a record with that barcode and
/// that identifier: lines without a barcode, and lines that could not be
/// read, leave no trace.
pub proof fn lemma_index_holds_only_records(records: Seq<Option<Variant>>, barcode: Seq<char>)
    requires
        barcode_index(records).contains_key(barcode),
    ensures
        exists|i: int|
            0 <= i < records.len() && #[trigger] filed_barcode(records[i]) == Some(barcode)
                && filed_id(records[i]) == barcode_index(records)[barcode],
    decreases records.len(),
{
    if records.len() > 0 {
        let earlier = records.drop_last();
        if filed_barcode(records.last()) == Some(barcode) {
            assert(filed_barcode(records[records.len() - 1]) == Some(barcode));
        } else {
            lemma_index_holds_only_records(earlier, barcode);
            let i = choose|i: int|
                0 <= i < earlier.len() && #[trigger] filed_barcode(earlier[i]) == Some(barcode)
                    && filed_id(earlier[i]) == barcode_index(earlier)[barcode];
            assert(filed_barcode(records[i]) == Some(barcode));
        }
    }
}

/// What a batch line opens with, up to the identifier.
pub const LINE_HEAD: &'static str = "{\"input\":{\"id\":\"";

/// What stands between the identifier and the price.
pub const LINE_PRICE: &'static str = "\",\"price\":";

/// What stands between the price and the price to compare with.
pub const LINE_COMPARE: &'static str = ",\"compareAtPrice\":";

/// What a batch line closes with.
pub const LINE_TAIL: &'static str = "}}";

/// What stands for a price to compare with where there is none.
pub const NO_PRICE: &'static str = "null";

/// An identifier with a backslash put before each `/`.
pub open spec fn escaped(id: Seq<char>) -> Seq<char>
    decreases id.len(),
{
    if id.len() == 0 {
        id
    } else if id[0] == '/' {
        seq!['\\', '/'] + escaped(id.skip(1))
    } else {
        seq![id[0]] + escaped(id.skip(1))
    }
}

/// A text with each `\/` read as `/`, as a reader of JSON does.
pub open spec fn unescaped(text: Seq<char>) -> Seq<char>
    decreases text.len(),
{
    if text.len() == 0 {
        text
    } else if text.len() >= 2 && text[0] == '\\' && text[1] == '/' {
        seq!['/'] + unescaped(text.skip(2))
    } else {
        seq![text[0]] + unescaped(text.skip(1))
    }
}

/// An escaped identifier never begins with `/`.
proof fn lemma_escaped_head(id: Seq<char>)
    ensures
        escaped(id).len() > 0 ==> escaped(id)[0] != '/',
{
}

/// Reading an escaped identifier gives the identifier back.
pub proof fn lemma_unescape_restores(id: Seq<char>)
    ensures
        unescaped(escaped(id)) == id,
    decreases id.len(),
{
    if id.len() > 0 {
        let rest = id.skip(1);
        lemma_unescape_restores(rest);
        lemma_escaped_head(rest);
        if id[0] == '/' {
            assert(escaped(id).skip(2) =~= escaped(rest));
        } else {
            assert(escaped(id).skip(1) =~= escaped(rest));
        }
        assert(seq![id[0]] + rest =~= id);
    }
}

/// Appends the identifier `id` to `out`, escaped.
pub fn push_escaped(out: &mut String, id: &str)
    ensures
        final(out)@ == old(out)@ + escaped(id@),
{
    let chars = chars_of(id);
    let mut i: usize = 0;
    assert(chars@.skip(0) =~= chars@);
    while i < chars.len()
        invariant
            i <= chars.len(),
            out@ + escaped(chars@.skip(i as int)) == old(out)@ + escaped(chars@),
        decreases chars.len() - i,
    {
        let ghost before = out@;
        let ghost rest = chars@.skip(i as int);
        assert(rest.skip(1) =~= chars@.skip(i + 1));
        if chars[i] == '/' {
            out.push('\\');
            out.push('/');
            assert(out@ + escaped(rest.skip(1)) =~= before + escaped(rest));
        } else {
            out.push(chars[i]);
            assert(out@ + escaped(rest.skip(1)) =~= before + escaped(rest));
        }
        i += 1;
    }
    assert(out@ + escaped(chars@.skip(i as int)) =~= out@);
}

/// The price that a line carries for `product`, in hundredths.
pub open spec fn price_of(product: Product, mode: Mode) -> nat {
    match mode {
        Mode::WithOffer => product.offer_rsp as nat,
        Mode::ClearOffer => product.rsp as nat,
    }
}

/// The price to compare with, as a line carries it for `product`.
pub open spec fn compare_text(product: Product, mode: Mode) -> Seq<char> {
    match mode {
        Mode::WithOffer => two_places(product.rsp as nat),
        Mode::ClearOffer => NO_PRICE@,
    }
}

/// The line of the batch file that updates the variant `id` with the prices
/// of `product`: one mutation input, without the line feed after it.
pub open spec fn batch_line(id: Seq<char>, product: Product, mode: Mode) -> Seq<char> {
    LINE_HEAD@ + escaped(id) + LINE_PRICE@ + two_places(price_of(product, mode)) + LINE_COMPARE@
        + compare_text(product, mode) + LINE_TAIL@
}

/// The line that a product gives against an index: none where the index does
/// not know its barcode.
pub open spec fn line_for(
    index: Map<Seq<char>, Seq<char>>,
    mode: Mode,
) -> spec_fn(Product) -> Option<Seq<char>> {
    |product: Product|
        if index.contains_key(product.barcode@) {
            Some(batch_line(index[product.barcode@], product, mode))
        } else {
            None
        }
}

/// The lines that a sheet of products gives, in the order of the sheet.
pub open spec fn batch_lines(
    products: Seq<Product>,
    index: Map<Seq<char>, Seq<char>>,
    mode: Mode,
) -> Seq<Seq<char>> {
    products.filter_map(line_for(index, mode))
}

/// Lines as they stand in a file, a line feed after each.
pub open spec fn joined(lines: Seq<Seq<char>>) -> Seq<char>
    decreases lines.len(),
{
    if lines.len() == 0 {
        seq![]
    } else {
        joined(lines.drop_last()) + lines.last() + seq!['\n']
    }
}

/// What a sheet of products adds to the batch file.
pub open spec fn batch_text(
    products: Seq<Product>,
    index: Map<Seq<char>, Seq<char>>,
    mode: Mode,
) -> Seq<char> {
    joined(batch_lines(products, index, mode))
}

/// Appends to `out` the line for `product` under the identifier `id`, and a
/// line feed.
fn push_line(out: &mut String, id: &str, product: &Product, mode: Mode)
    ensures
        final(out)@ == old(out)@ + batch_line(id@, *product, mode) + seq!['\n'],
{
    out.append(LINE_HEAD);
    push_escaped(out, id);
    out.append(LINE_PRICE);
    match mode {
        Mode::WithOffer => {
            push_two_places(out, product.offer_rsp);
            out.append(LINE_COMPARE);
            push_two_places(out, product.rsp);
        },
        Mode::ClearOffer => {
            push_two_places(out, product.rsp);
            out.append(LINE_COMPARE);
            out.append(NO_PRICE);
        },
    }
    out.append(LINE_TAIL);
    out.push('\n');
    assert(out@ =~= old(out)@ + batch_line(id@, *product, mode) + seq!['\n']);
}

/// Writes the lines of the batch file for a sheet of products: one line for
/// each product whose barcode the index knows, none for the others.
pub fn write_batch(products: &Vec<Product>, map: &BarcodeIndex, mode: Mode) -> (text: String)
    ensures
        text@ == batch_text(products@, map@, mode),
{
    let mut text = String::new();
    let mut i: usize = 0;
    assert(products@.take(0) =~= Seq::<Product>::empty());
    while i < products.len()
        invariant
            i <= products.len(),
            text@ == batch_text(products@.take(i as int), map@, mode),
        decreases products.len() - i,
    {
        let product = &products[i];
        let ghost before = products@.take(i as int);
        let ghost lines = batch_lines(before, map@, mode);
        assert(products@.take(i + 1).drop_last() =~= before);
        assert(products@.take(i + 1).last() == *product);
        match map.get(product.barcode.as_str()) {
            Some(id) => {
                let ghost line = batch_line(id@, *product, mode);
                assert(batch_lines(products@.take(i + 1), map@, mode) == lines + seq![line]);
                assert((lines + seq![line]).drop_last() =~= lines);
                push_line(&mut text, id.as_str(), product, mode);
            },
            None => {
                assert(batch_lines(products@.take(i + 1), map@, mode) == lines);
            },
        }
        i += 1;
    }
    assert(products@.take(products.len() as int) =~= products@);
    text
}

/// Writes the batch lines that carry the offer price as the price and the
/// regular price to compare with.
pub fn write_to_jsonln(products: &Vec<Product>, map: &BarcodeIndex) -> (text: String)
    ensures
        text@ == batch_text(products@, map@, Mode::WithOffer),
{
    write_batch(products, map, Mode::WithOffer)
}

/// Writes the batch lines that carry the regular price as the price and
/// clear the price to compare with.
pub fn write_to_jsonln_clear(products: &Vec<Product>, map: &BarcodeIndex) -> (text: String)
    ensures
        text@ == batch_text(products@, map@, Mode::ClearOffer),
{
    write_batch(products, map, Mode::ClearOffer)
}

/// The batch holds one line for each product whose barcode the index knows,
/// and no other line.
pub proof fn lemma_one_line_for_each_match(
    products: Seq<Product>,
    index: Map<Seq<char>, Seq<char>>,
    mode: Mode,
)
    ensures
        batch_lines(products, index, mode).len() == products.filter(
            |product: Product| index.contains_key(product.barcode@),
        ).len(),
    decreases products.len(),
{
    reveal(Seq::filter);
    if products.len() > 0 {
        lemma_one_line_for_each_match(products.drop_last(), index, mode);
    }
}

/// A product whose barcode the index does not know adds nothing to the
/// batch, wherever in the sheet it stands.
pub proof fn lemma_unmatched_product_adds_nothing(
    products: Seq<Product>,
    index: Map<Seq<char>, Seq<char>>,
    mode: Mode,
    i: int,
)
    requires
        0 <= i < products.len(),
        !index.contains_key(products[i].barcode@),
    ensures
        batch_lines(products, index, mode) == batch_lines(products.remove(i), index, mode),
        batch_text(products, index, mode) == batch_text(products.remove(i), index, mode),
    decreases products.len(),
{
    let last = products.len() - 1;
    if i == last {
        assert(products.remove(i) =~= products.drop_last());
    } else {
        lemma_unmatched_product_adds_nothing(products.drop_last(), index, mode, i);
        assert(products.remove(i).drop_last() =~= products.drop_last().remove(i));
        assert(products.remove(i).last() == products.last());
    }
}

} // verus!
