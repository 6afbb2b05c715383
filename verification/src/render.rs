//! Type-polymorphic value rendering: a cell's canonical display string is
//! re-classified into a typed rendering value by attempting parses in a
//! fixed priority order — null, signed 64-bit integer, floating-point
//! number, boolean — falling back to plain text.
//!
//! The floating-point attempt depends on the machine's float parser, which
//! verified code cannot hold, so a caller reports its outcome as a
//! [`FloatProbe`] and classification is verified for every possible
//! outcome.

use vstd::prelude::*;

use crate::OutputFormat;
use crate::error::PqError;
use crate::text::ascii_lowercase;
use crate::text::has_char;
use crate::text::lemma_has_char_step;
use crate::text::lower_seq;
use crate::text::push_char;
use crate::text::str_eq;

verus! {

/// The outcome of attempting to parse a text as a 64-bit float: a finite
/// number, a non-finite one (not representable in JSON), or no float at
/// all.
#[derive(Clone, Copy, Debug, PartialEq, Eq, Structural)]
pub enum FloatProbe {
    Finite,
    NonFinite,
    NotFloat,
}

/// A display string re-classified into a typed rendering value. A float is
/// carried as its numeric text, which is all the display string holds.
#[derive(Clone, Debug, PartialEq, Eq)]
pub enum Rendered {
    Null,
    Int(i64),
    Float(String),
    Bool(bool),
    Text(String),
}

/// The mathematical shadow of [`Rendered`], texts as character sequences.
pub enum RenderedView {
    Null,
    Int(i64),
    Float(Seq<char>),
    Bool(bool),
    Text(Seq<char>),
}

impl View for Rendered {
    type V = RenderedView;

    open spec fn view(&self) -> RenderedView {
        match self {
            Rendered::Null => RenderedView::Null,
            Rendered::Int(v) => RenderedView::Int(*v),
            Rendered::Float(s) => RenderedView::Float(s@),
            Rendered::Bool(b) => RenderedView::Bool(*b),
            Rendered::Text(s) => RenderedView::Text(s@),
        }
    }
}

/// An ASCII decimal digit.
pub open spec fn is_digit(c: char) -> bool {
    '0' <= c && c <= '9'
}

/// The numeric value of a digit character.
pub open spec fn digit_val(c: char) -> int {
    c as int - '0' as int
}

/// The digit character of a value below ten.
pub open spec fn digit_char(d: int) -> char {
    ((d + '0' as int) as u8) as char
}

pub open spec fn all_digits(s: Seq<char>) -> bool {
    forall|i: int| 0 <= i < s.len() ==> is_digit(#[trigger] s[i])
}

/// The value of a digit string, most significant digit first.
pub open spec fn digits_val(s: Seq<char>) -> int
    decreases s.len(),
{
    if s.len() == 0 {
        0
    } else {
        digits_val(s.drop_last()) * 10 + digit_val(s.last())
    }
}

/// The digits of an integer literal, past its sign if it has one.
pub open spec fn digits_part(s: Seq<char>) -> Seq<char> {
    if s.len() > 0 && (s[0] == '+' || s[0] == '-') {
        s.skip(1)
    } else {
        s
    }
}

pub open spec fn is_neg_literal(s: Seq<char>) -> bool {
    s.len() > 0 && s[0] == '-'
}

/// An integer literal as the machine's decimal parser accepts it: an
/// optional sign followed by one or more digits.
pub open spec fn is_int_literal(s: Seq<char>) -> bool {
    digits_part(s).len() > 0 && all_digits(digits_part(s))
}

/// The mathematical value of an integer literal.
pub open spec fn int_literal_val(s: Seq<char>) -> int {
    if is_neg_literal(s) {
        -digits_val(digits_part(s))
    } else {
        digits_val(digits_part(s))
    }
}

/// An integer literal whose value fits a signed 64-bit word.
pub open spec fn is_i64_string(s: Seq<char>) -> bool {
    is_int_literal(s) && i64::MIN <= int_literal_val(s) <= i64::MAX
}

/// The canonical decimal rendering of a non-negative value, no leading
/// zeros, nothing for zero itself.
pub open spec fn nat_digits(v: int) -> Seq<char>
    decreases v,
{
    if v <= 0 {
        Seq::empty()
    } else {
        nat_digits(v / 10).push(digit_char(v % 10))
    }
}

/// The canonical decimal rendering of an integer.
pub open spec fn int_str_spec(v: int) -> Seq<char> {
    if v == 0 {
        seq!['0']
    } else if v > 0 {
        nat_digits(v)
    } else {
        seq!['-'] + nat_digits(-v)
    }
}

proof fn lemma_digits_val_nonneg(s: Seq<char>)
    requires
        all_digits(s),
    ensures
        digits_val(s) >= 0,
    decreases s.len(),
{
    if s.len() > 0 {
        assert(all_digits(s.drop_last()));
        lemma_digits_val_nonneg(s.drop_last());
    }
}

proof fn lemma_digits_val_take_step(s: Seq<char>, k: int)
    requires
        0 <= k < s.len(),
    ensures
        digits_val(s.take(k + 1)) == digits_val(s.take(k)) * 10 + digit_val(s[k]),
{
    assert(s.take(k + 1).drop_last() =~= s.take(k));
    assert(s.take(k + 1).last() == s[k]);
}

proof fn lemma_digits_val_take_monotone(s: Seq<char>, k: int)
    requires
        all_digits(s),
        0 <= k <= s.len(),
    ensures
        digits_val(s.take(k)) <= digits_val(s),
    decreases s.len() - k,
{
    if k < s.len() {
        lemma_digits_val_take_step(s, k);
        assert(all_digits(s.take(k)));
        lemma_digits_val_nonneg(s.take(k));
        lemma_digits_val_take_monotone(s, k + 1);
    } else {
        assert(s.take(k) =~= s);
    }
}

proof fn lemma_nat_digits_all_digits(v: int)
    ensures
        all_digits(nat_digits(v)),
    decreases v,
{
    if v > 0 {
        lemma_nat_digits_all_digits(v / 10);
        assert(0 <= v % 10 < 10);
        assert(is_digit(digit_char(v % 10)));
    }
}

proof fn lemma_nat_digits_val(v: int)
    requires
        v >= 0,
    ensures
        digits_val(nat_digits(v)) == v,
    decreases v,
{
    if v > 0 {
        lemma_nat_digits_val(v / 10);
        assert(nat_digits(v).drop_last() =~= nat_digits(v / 10));
        assert(digit_val(digit_char(v % 10)) == v % 10);
    }
}

proof fn lemma_nat_digits_len(v: int)
    requires
        v > 0,
    ensures
        nat_digits(v).len() > 0,
{
}

/// Parse a signed 64-bit integer from its decimal text, exactly as far as
/// the value fits: an optional sign, one or more digits, nothing else.
pub fn parse_i64(s: &str) -> (r: Option<i64>)
    ensures
        r is Some <==> is_i64_string(s@),
        r matches Some(v) ==> v == int_literal_val(s@),
{
    let len = s.unicode_len();
    if len == 0 {
        return None;
    }
    let first = s.get_char(0);
    let neg = first == '-';
    let start: usize = if first == '-' || first == '+' {
        1
    } else {
        0
    };
    let ghost d = digits_part(s@);
    proof {
        assert(d =~= s@.skip(start as int));
    }
    if start == len {
        assert(d.len() == 0);
        return None;
    }
    // The magnitude cap: one more for a negative literal.
    let cap: u128 = if neg {
        9_223_372_036_854_775_808
    } else {
        9_223_372_036_854_775_807
    };
    let mut acc: u128 = 0;
    let mut i: usize = start;
    while i < len
        invariant
            start <= i <= len,
            len == s@.len(),
            d == digits_part(s@),
            d =~= s@.skip(start as int),
            start == (if is_neg_literal(s@) || (s@.len() > 0 && s@[0] == '+') {
                1int
            } else {
                0int
            }),
            neg == is_neg_literal(s@),
            cap == (if neg {
                9_223_372_036_854_775_808u128
            } else {
                9_223_372_036_854_775_807u128
            }),
            acc <= cap,
            all_digits(d.take(i - start)),
            acc == digits_val(d.take(i - start)),
        decreases len - i,
    {
        let c = s.get_char(i);
        if !(('0' <= c) && (c <= '9')) {
            assert(!is_digit(d[i - start]));
            return None;
        }
        let dv: u128 = (c as u8 - 48) as u128;
        proof {
            assert(dv == digit_val(c));
            lemma_digits_val_take_step(d, i - start);
            assert(all_digits(d.take(i - start + 1)));
        }
        acc = acc * 10 + dv;
        i = i + 1;
        if acc > cap {
            // The prefix already exceeds the cap; appending digits only
            // grows the value, and a later non-digit would reject the
            // literal anyway.
            proof {
                if is_int_literal(s@) {
                    lemma_digits_val_take_monotone(d, i - start);
                    if is_neg_literal(s@) {
                        assert(int_literal_val(s@) < i64::MIN);
                    } else {
                        assert(int_literal_val(s@) > i64::MAX);
                    }
                }
            }
            return None;
        }
    }
    proof {
        assert(d.take(len - start) =~= d);
        lemma_digits_val_nonneg(d);
    }
    if neg {
        if acc == 9_223_372_036_854_775_808 {
            Some(i64::MIN)
        } else {
            Some(-((acc as i64)))
        }
    } else {
        Some(acc as i64)
    }
}

/// Render a signed 64-bit integer as its canonical decimal text.
pub fn render_i64(v: i64) -> (r: String)
    ensures
        r@ == int_str_spec(v as int),
{
    if v == 0 {
        let mut r = String::new();
        push_char(&mut r, '0');
        proof {
            assert(r@ =~= seq!['0']);
        }
        return r;
    }
    let m0: u64 = if v < 0 {
        (-(v as i128)) as u64
    } else {
        v as u64
    };
    // Digits come out least significant first; collect, then emit in order.
    let mut low_first: Vec<char> = Vec::new();
    let mut m: u64 = m0;
    while m > 0
        invariant
            m0 > 0,
            nat_digits(m0 as int) == nat_digits(m as int) + low_first@.reverse(),
        decreases m,
    {
        let dc = ((m % 10) as u8 + 48) as char;
        proof {
            assert(dc == digit_char(m as int % 10));
            assert(nat_digits(m as int).drop_last() =~= nat_digits(m as int / 10));
            assert((nat_digits(m as int / 10) + low_first@.push(dc).reverse()) =~= (nat_digits(
                m as int,
            ) + low_first@.reverse()));
        }
        low_first.push(dc);
        m = m / 10;
    }
    let mut r = String::new();
    if v < 0 {
        push_char(&mut r, '-');
    }
    let ghost head = r@;
    let k = low_first.len();
    let mut j: usize = 0;
    while j < k
        invariant
            j <= k,
            k == low_first@.len(),
            r@ == head + low_first@.reverse().take(j as int),
        decreases k - j,
    {
        let c = low_first[k - 1 - j];
        push_char(&mut r, c);
        proof {
            assert(low_first@.reverse()[j as int] == low_first@[k - 1 - j]);
            assert(r@ =~= head + low_first@.reverse().take(j + 1));
        }
        j = j + 1;
    }
    proof {
        assert(low_first@.reverse().take(k as int) =~= low_first@.reverse());
        assert(nat_digits(0int) + low_first@.reverse() =~= low_first@.reverse());
        if v < 0 {
            assert(m0 == -(v as int));
            assert(r@ =~= seq!['-'] + nat_digits(-(v as int)));
        } else {
            assert(r@ =~= nat_digits(v as int));
        }
    }
    r
}

/// Render a boolean as its canonical text.
pub fn render_bool(b: bool) -> (r: String)
    ensures
        b ==> r@ == "true"@,
        !b ==> r@ == "false"@,
{
    if b {
        String::from_str("true")
    } else {
        String::from_str("false")
    }
}

/// What classification owes for every display string and every probe
/// outcome, in the fixed priority order: the literal "null" or the empty
/// string; a signed 64-bit integer; a float, finite ones kept as numbers
/// and non-finite ones falling back to text; a boolean literal; text.
pub open spec fn classify_spec(s: Seq<char>, probe: FloatProbe) -> RenderedView {
    if s.len() == 0 || s == "null"@ {
        RenderedView::Null
    } else if is_i64_string(s) {
        RenderedView::Int(int_literal_val(s) as i64)
    } else if probe == FloatProbe::Finite {
        RenderedView::Float(s)
    } else if probe == FloatProbe::NonFinite {
        RenderedView::Text(s)
    } else if s == "true"@ {
        RenderedView::Bool(true)
    } else if s == "false"@ {
        RenderedView::Bool(false)
    } else {
        RenderedView::Text(s)
    }
}

/// Re-classify a display string into a typed rendering value; `probe`
/// reports what the machine's float parser made of `s`.
pub fn classify(s: &str, probe: FloatProbe) -> (r: Rendered)
    ensures
        r@ == classify_spec(s@, probe),
{
    if s.unicode_len() == 0 || str_eq(s, "null") {
        return Rendered::Null;
    }
    match parse_i64(s) {
        Some(v) => Rendered::Int(v),
        None => match probe {
            FloatProbe::Finite => Rendered::Float(s.to_owned()),
            FloatProbe::NonFinite => Rendered::Text(s.to_owned()),
            FloatProbe::NotFloat => {
                if str_eq(s, "true") {
                    Rendered::Bool(true)
                } else if str_eq(s, "false") {
                    Rendered::Bool(false)
                } else {
                    Rendered::Text(s.to_owned())
                }
            },
        },
    }
}

/// Classification recovers every rendered 64-bit integer exactly,
/// whatever the float parser would have said.
pub proof fn lemma_classify_render_i64(v: i64, probe: FloatProbe)
    ensures
        classify_spec(int_str_spec(v as int), probe) == RenderedView::Int(v),
{
    let s = int_str_spec(v as int);
    reveal_strlit("null");
    assert('n' as int == 110);
    if v == 0 {
        assert(s[0] == '0');
        assert(s != "null"@);
        assert(digits_part(s) =~= s);
        assert(digits_val(s.drop_last()) == 0);
        assert(digits_val(s) == digit_val('0'));
        assert(int_literal_val(s) == 0);
    } else if v > 0 {
        lemma_nat_digits_all_digits(v as int);
        lemma_nat_digits_val(v as int);
        lemma_nat_digits_len(v as int);
        assert(is_digit(s[0]));
        assert(s != "null"@);
        assert(digits_part(s) =~= s);
        assert(int_literal_val(s) == v as int);
    } else {
        lemma_nat_digits_all_digits(-(v as int));
        lemma_nat_digits_val(-(v as int));
        lemma_nat_digits_len(-(v as int));
        assert(s[0] == '-');
        assert(s != "null"@);
        assert(is_neg_literal(s));
        assert(digits_part(s) =~= nat_digits(-(v as int)));
        assert(int_literal_val(s) == v as int);
    }
}

/// Classification recovers every rendered boolean exactly; the boolean
/// literals are no numbers, so the float parser reports no float for
/// them.
pub proof fn lemma_classify_render_bool(b: bool)
    ensures
        b ==> classify_spec("true"@, FloatProbe::NotFloat) == RenderedView::Bool(true),
        !b ==> classify_spec("false"@, FloatProbe::NotFloat) == RenderedView::Bool(false),
{
    reveal_strlit("true");
    reveal_strlit("false");
    reveal_strlit("null");
    assert("true"@.len() == 4);
    assert("false"@.len() == 5);
    assert("null"@.len() == 4);
    assert("true"@[0] == 't' && "null"@[0] == 'n');
    assert(!is_digit("true"@[0]) && "true"@[0] != '+' && "true"@[0] != '-');
    assert(!is_digit("false"@[0]) && "false"@[0] != '+' && "false"@[0] != '-');
    assert(!is_int_literal("true"@));
    assert(!is_int_literal("false"@));
}

/// A non-finite float — not representable in JSON — never classifies as a
/// float: it falls back to text, or to an earlier category.
pub proof fn lemma_nonfinite_never_float(s: Seq<char>, probe: FloatProbe)
    requires
        probe != FloatProbe::Finite,
    ensures
        !(classify_spec(s, probe) matches RenderedView::Float(_)),
{
}


/// The CSV escaping of a text: doubled quotes inside, the whole wrapped in
/// quotes, applied only where a comma, quote or line break asks for it.
pub open spec fn csv_doubled(s: Seq<char>) -> Seq<char>
    decreases s.len(),
{
    if s.len() == 0 {
        Seq::empty()
    } else if s.last() == '"' {
        csv_doubled(s.drop_last()) + seq!['"', '"']
    } else {
        csv_doubled(s.drop_last()) + seq![s.last()]
    }
}

pub open spec fn escape_csv_spec(s: Seq<char>) -> Seq<char> {
    if has_char(s, ',') || has_char(s, '"') || has_char(s, '\n') {
        seq!['"'] + csv_doubled(s) + seq!['"']
    } else {
        s
    }
}

/// Escape a text for a CSV cell.
pub fn escape_csv(s: &str) -> (r: String)
    ensures
        r@ == escape_csv_spec(s@),
{
    let len = s.unicode_len();
    let mut needs = false;
    let mut i: usize = 0;
    while i < len
        invariant
            i <= len,
            len == s@.len(),
            needs == (has_char(s@.take(i as int), ',') || has_char(s@.take(i as int), '"')
                || has_char(s@.take(i as int), '\n')),
        decreases len - i,
    {
        let c = s.get_char(i);
        proof {
            lemma_has_char_step(s@, i as int, ',');
            lemma_has_char_step(s@, i as int, '"');
            lemma_has_char_step(s@, i as int, '\n');
        }
        if c == ',' || c == '"' || c == '\n' {
            needs = true;
        }
        i = i + 1;
    }
    proof {
        assert(s@.take(len as int) =~= s@);
    }
    if !needs {
        return s.to_owned();
    }
    let mut r = String::new();
    push_char(&mut r, '"');
    let mut j: usize = 0;
    while j < len
        invariant
            j <= len,
            len == s@.len(),
            r@ == seq!['"'] + csv_doubled(s@.take(j as int)),
        decreases len - j,
    {
        let c = s.get_char(j);
        proof {
            assert(s@.take(j + 1).drop_last() =~= s@.take(j as int));
            assert(s@.take(j + 1).last() == s@[j as int]);
        }
        push_char(&mut r, c);
        if c == '"' {
            push_char(&mut r, '"');
            proof {
                assert(r@ =~= seq!['"'] + csv_doubled(s@.take(j + 1)));
            }
        } else {
            proof {
                assert(r@ =~= seq!['"'] + csv_doubled(s@.take(j + 1)));
            }
        }
        j = j + 1;
    }
    push_char(&mut r, '"');
    proof {
        assert(s@.take(len as int) =~= s@);
        assert(r@ =~= seq!['"'] + csv_doubled(s@) + seq!['"']);
    }
    r
}

/// Materialize the display strings of every cell of a batch, row by row
/// in file order; a cell the formatter cannot display aborts the batch
/// with its message, and nothing partial is handed out.
pub fn batch_cells(b: &crate::batch::Batch) -> (r: Result<Vec<Vec<String>>, String>)
    ensures
        crate::batch::batch_displayable(*b) ==> r is Ok,
        r matches Ok(rows) ==> {
            &&& rows@.len() == crate::batch::batch_rows(*b).len()
            &&& forall|i: int|
                0 <= i < rows@.len() ==> (#[trigger] rows@[i])@.len() == crate::batch::batch_rows(
                    *b,
                )[i].len()
            &&& forall|i: int, j: int|
                0 <= i < rows@.len() && 0 <= j < rows@[i]@.len() ==> (#[trigger] rows@[i]@[j])@
                    == crate::batch::batch_rows(*b)[i][j]
        },
{
    let nrows = b.num_rows();
    let ncols = b.num_columns();
    let mut rows: Vec<Vec<String>> = Vec::new();
    let mut i: usize = 0;
    while i < nrows
        invariant
            i <= nrows,
            nrows == crate::batch::batch_rows(*b).len(),
            ncols == crate::batch::batch_width(*b),
            forall|k: int|
                0 <= k < crate::batch::batch_rows(*b).len() ==> (#[trigger] crate::batch::batch_rows(
                    *b,
                )[k]).len() == ncols,
            rows@.len() == i,
            forall|k: int|
                0 <= k < i ==> (#[trigger] rows@[k])@.len() == crate::batch::batch_rows(
                    *b,
                )[k].len(),
            forall|k: int, j: int|
                0 <= k < i && 0 <= j < rows@[k]@.len() ==> (#[trigger] rows@[k]@[j])@
                    == crate::batch::batch_rows(*b)[k][j],
        decreases nrows - i,
    {
        let mut row: Vec<String> = Vec::new();
        let mut j: usize = 0;
        while j < ncols
            invariant
                i < nrows,
                j <= ncols,
                nrows == crate::batch::batch_rows(*b).len(),
                ncols == crate::batch::batch_width(*b),
                ncols == crate::batch::batch_rows(*b)[i as int].len(),
                row@.len() == j,
                forall|k: int|
                    0 <= k < j ==> (#[trigger] row@[k])@ == crate::batch::batch_rows(
                        *b,
                    )[i as int][k],
            decreases ncols - j,
        {
            match b.cell_text(i, j) {
                Ok(s) => {
                    row.push(s);
                },
                Err(e) => {
                    return Err(e);
                },
            }
            j = j + 1;
        }
        rows.push(row);
        i = i + 1;
    }
    Ok(rows)
}

/// What picking a conversion target by file extension owes: `csv`, `json`
/// and `jsonl`, read without regard to ASCII letter case, map to their
/// formats; anything else, or a missing extension, is unsupported, named
/// in the error in small letters.
pub open spec fn extension_classified(
    ext: Option<Seq<char>>,
    r: Result<OutputFormat, PqError>,
) -> bool {
    match ext {
        Option::None => r matches Err(PqError::UnsupportedFormat { format, supported })
            && format@ == "(no extension)"@ && supported@ == "csv, json, jsonl"@,
        Option::Some(e) => {
            let l = lower_seq(e);
            if l == "csv"@ {
                r == Ok::<OutputFormat, PqError>(OutputFormat::Csv)
            } else if l == "json"@ {
                r == Ok::<OutputFormat, PqError>(OutputFormat::Json)
            } else if l == "jsonl"@ {
                r == Ok::<OutputFormat, PqError>(OutputFormat::Jsonl)
            } else {
                r matches Err(PqError::UnsupportedFormat { format, supported }) && format@ == l
                    && supported@ == "csv, json, jsonl"@
            }
        },
    }
}

/// Pick the conversion target that a file extension names.
pub fn classify_extension(ext: Option<&str>) -> (r: Result<OutputFormat, PqError>)
    ensures
        extension_classified(
            match ext {
                Option::None => Option::None,
                Option::Some(e) => Option::Some(e@),
            },
            r,
        ),
{
    match ext {
        None => Err(
            PqError::UnsupportedFormat {
                format: String::from_str("(no extension)"),
                supported: String::from_str("csv, json, jsonl"),
            },
        ),
        Some(e) => {
            let l = ascii_lowercase(e);
            if str_eq(l.as_str(), "csv") {
                Ok(OutputFormat::Csv)
            } else if str_eq(l.as_str(), "json") {
                Ok(OutputFormat::Json)
            } else if str_eq(l.as_str(), "jsonl") {
                Ok(OutputFormat::Jsonl)
            } else {
                Err(
                    PqError::UnsupportedFormat {
                        format: l,
                        supported: String::from_str("csv, json, jsonl"),
                    },
                )
            }
        },
    }
}

} // verus!
