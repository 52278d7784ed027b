use vstd::prelude::*;

verus! {

#[verifier::external_type_specification]
#[verifier::external_body]
pub struct ExJsonError(serde_json::Error);

/// The JSON string that serde_json writes for `s`: `s` between double
/// quotes, with quotes, backslashes and control characters escaped.
pub uninterp spec fn json_str_of(s: Seq<char>) -> Seq<char>;

/// No line feed stands in `s`.
pub open spec fn no_newline(s: Seq<char>) -> bool {
    forall|i: int| 0 <= i < s.len() ==> s[i] != '\n'
}

/// Two texts without a line feed make one without a line feed.
pub broadcast proof fn lemma_no_newline_concat(a: Seq<char>, b: Seq<char>)
    requires
        no_newline(a),
        no_newline(b),
    ensures
        #[trigger] no_newline(a + b),
{
}

/// Relies on `serde_json::to_string` for a `str`. It serializes into a `Vec`,
/// whose writes never fail, so the result is always `Ok`; and it escapes every
/// character below U+0020, so a line feed never stands in it unescaped.
#[verifier::external_body]
fn json_string(s: &str) -> (r: Result<String, serde_json::Error>)
    ensures
        r is Ok,
        r->Ok_0@ == json_str_of(s@),
        no_newline(r->Ok_0@),
{
    serde_json::to_string(s)
}

/// `s` as a JSON string literal.
pub fn quote(s: &str) -> (r: String)
    ensures
        r@ == json_str_of(s@),
        no_newline(r@),
{
    match json_string(s) {
        Ok(t) => t,
        Err(_) => String::new(),
    }
}

/// The decimal digit for `d`, below ten.
pub open spec fn digit_char(d: nat) -> char {
    seq!['0', '1', '2', '3', '4', '5', '6', '7', '8', '9'][d as int]
}

/// The decimal digits of `n`, most significant first, with no leading zero.
pub open spec fn decimal(n: nat) -> Seq<char>
    decreases n,
{
    if n < 10 {
        seq![digit_char(n)]
    } else {
        decimal(n / 10).push(digit_char(n % 10))
    }
}

/// Decimal text holds digits only.
pub proof fn lemma_decimal_no_newline(n: nat)
    ensures
        no_newline(decimal(n)),
    decreases n,
{
    if n >= 10 {
        lemma_decimal_no_newline(n / 10);
    }
}

fn digit_text(d: u64) -> (r: &'static str)
    requires
        d < 10,
    ensures
        r@ == seq![digit_char(d as nat)],
{
    if d == 0 {
        proof { reveal_strlit("0"); }
        "0"
    } else if d == 1 {
        proof { reveal_strlit("1"); }
        "1"
    } else if d == 2 {
        proof { reveal_strlit("2"); }
        "2"
    } else if d == 3 {
        proof { reveal_strlit("3"); }
        "3"
    } else if d == 4 {
        proof { reveal_strlit("4"); }
        "4"
    } else if d == 5 {
        proof { reveal_strlit("5"); }
        "5"
    } else if d == 6 {
        proof { reveal_strlit("6"); }
        "6"
    } else if d == 7 {
        proof { reveal_strlit("7"); }
        "7"
    } else if d == 8 {
        proof { reveal_strlit("8"); }
        "8"
    } else {
        proof { reveal_strlit("9"); }
        "9"
    }
}

pub(crate) fn push_decimal(out: &mut String, n: u64)
    ensures
        final(out)@ == old(out)@ + decimal(n as nat),
    decreases n,
{
    if n >= 10 {
        push_decimal(out, n / 10);
    }
    out.append(digit_text(n % 10));
    proof {
        if n >= 10 {
            assert(old(out)@ + decimal((n / 10) as nat) + seq![digit_char((n % 10) as nat)]
                =~= old(out)@ + decimal(n as nat));
        } else {
            assert(old(out)@ + seq![digit_char((n % 10) as nat)] =~= old(out)@ + decimal(n as nat));
        }
    }
}

/// The decimal text of `n`, as JSON writes an unsigned integer.
pub fn decimal_string(n: u64) -> (r: String)
    ensures
        r@ == decimal(n as nat),
{
    let mut out = String::new();
    push_decimal(&mut out, n);
    assert(out@ =~= decimal(n as nat));
    out
}


/// A character that a JSON number can be made of.
pub open spec fn number_char(c: char) -> bool {
    ('0' <= c && c <= '9') || c == '-' || c == '+' || c == '.' || c == 'e' || c == 'E'
}

/// Text that can stand where a JSON number is written: `null` (what JSON
/// writes for a value that is not finite), or a non-empty run of number
/// characters.
pub open spec fn number_text(s: Seq<char>) -> bool {
    s == seq!['n', 'u', 'l', 'l'] || (s.len() > 0 && forall|i: int|
        0 <= i < s.len() ==> number_char(#[trigger] s[i]))
}

/// Whether `s` can be written as a number in a log line.
pub fn is_number_text(s: &str) -> (r: bool)
    ensures
        r == number_text(s@),
{
    let n = s.unicode_len();
    if n == 4 && s.get_char(0) == 'n' && s.get_char(1) == 'u' && s.get_char(2) == 'l'
        && s.get_char(3) == 'l' {
        assert(s@ =~= seq!['n', 'u', 'l', 'l']);
        return true;
    }
    if n == 0 {
        return false;
    }
    let mut i: usize = 0;
    while i < n
        invariant
            n == s@.len(),
            0 < n,
            i <= n,
            s@ != seq!['n', 'u', 'l', 'l'],
            forall|j: int| 0 <= j < i ==> number_char(#[trigger] s@[j]),
        decreases n - i,
    {
        let c = s.get_char(i);
        if !(('0' <= c && c <= '9') || c == '-' || c == '+' || c == '.' || c == 'e' || c == 'E') {
            return false;
        }
        i += 1;
    }
    true
}

/// `items` separated by commas.
pub open spec fn joined(items: Seq<Seq<char>>) -> Seq<char>
    decreases items.len(),
{
    if items.len() == 0 {
        seq![]
    } else if items.len() == 1 {
        items[0]
    } else {
        joined(items.drop_last()) + seq![','] + items.last()
    }
}

/// A JSON array whose elements are written as `items`, in their order.
pub open spec fn array_text(items: Seq<Seq<char>>) -> Seq<char> {
    seq!['['] + joined(items) + seq![']']
}

/// Joining single-line items with commas gives a single line.
pub proof fn lemma_joined_no_newline(items: Seq<Seq<char>>)
    requires
        forall|i: int| 0 <= i < items.len() ==> no_newline(#[trigger] items[i]),
    ensures
        no_newline(joined(items)),
    decreases items.len(),
{
    broadcast use lemma_no_newline_concat;

    if items.len() > 1 {
        lemma_joined_no_newline(items.drop_last());
        assert(no_newline(items.last()));
    }
}

/// An array of single-line items is a single line.
pub proof fn lemma_array_no_newline(items: Seq<Seq<char>>)
    requires
        forall|i: int| 0 <= i < items.len() ==> no_newline(#[trigger] items[i]),
    ensures
        no_newline(array_text(items)),
{
    broadcast use lemma_no_newline_concat;

    lemma_joined_no_newline(items);
}

/// The texts of `v`, in order.
pub open spec fn texts(v: Seq<String>) -> Seq<Seq<char>> {
    v.map_values(|s: String| s@)
}

/// Appends to `out` the JSON array whose elements are written as `items`.
pub fn push_array(out: &mut String, items: &Vec<String>)
    ensures
        final(out)@ == old(out)@ + array_text(texts(items@)),
{
    proof {
        reveal_strlit("[");
    }
    out.append("[");
    let mut i: usize = 0;
    while i < items.len()
        invariant
            i <= items@.len(),
            out@ == old(out)@ + seq!['['] + joined(texts(items@.take(i as int))),
        decreases items@.len() - i,
    {
        let ghost before = out@;
        proof {
            reveal_strlit(",");
        }
        if i > 0 {
            out.append(",");
        }
        out.append(items[i].as_str());
        proof {
            let t = texts(items@.take(i + 1));
            assert(t.drop_last() =~= texts(items@.take(i as int)));
            assert(t.last() == items@[i as int]@);
            if i == 0 {
                assert(joined(t) == t[0]);
                assert(out@ =~= old(out)@ + seq!['['] + joined(t));
            } else {
                assert(joined(t) == joined(t.drop_last()) + seq![','] + t.last());
                assert(out@ == before + seq![','] + items@[i as int]@);
                assert(out@ =~= old(out)@ + seq!['['] + joined(t));
            }
        }
        i += 1;
    }
    proof {
        reveal_strlit("]");
    }
    out.append("]");
    assert(items@.take(items@.len() as int) =~= items@);
}

} // verus!
