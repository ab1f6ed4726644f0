//! Artifact embedding.
//!
//! A compiled object's bytes are serialized into a generated source artifact:
//! a provenance header naming the resolved kernel base, architecture and
//! triplet, then a lazily-initialized immutable byte-sequence constant whose
//! initializer lists each byte as a hexadecimal literal, comma-separated, in
//! original order, with no trailing separator. Literals keep the fixed `0x`
//! prefix but are not zero-padded: a byte below sixteen renders with a single
//! digit. A parser recovers the byte list from an artifact, and the
//! round-trip is proved exact for every byte sequence.

use crate::context::BuildContext;
use vstd::prelude::*;
use vstd::string::*;

verus! {

/// The hexadecimal digit character for a value below sixteen.
pub open spec fn hex_digit_char(d: int) -> char {
    if d == 0 {
        '0'
    } else if d == 1 {
        '1'
    } else if d == 2 {
        '2'
    } else if d == 3 {
        '3'
    } else if d == 4 {
        '4'
    } else if d == 5 {
        '5'
    } else if d == 6 {
        '6'
    } else if d == 7 {
        '7'
    } else if d == 8 {
        '8'
    } else if d == 9 {
        '9'
    } else if d == 10 {
        'a'
    } else if d == 11 {
        'b'
    } else if d == 12 {
        'c'
    } else if d == 13 {
        'd'
    } else if d == 14 {
        'e'
    } else {
        'f'
    }
}

/// The value of a hexadecimal digit character, or -1 for any other character.
pub open spec fn hex_value(c: char) -> int {
    if c == '0' {
        0
    } else if c == '1' {
        1
    } else if c == '2' {
        2
    } else if c == '3' {
        3
    } else if c == '4' {
        4
    } else if c == '5' {
        5
    } else if c == '6' {
        6
    } else if c == '7' {
        7
    } else if c == '8' {
        8
    } else if c == '9' {
        9
    } else if c == 'a' {
        10
    } else if c == 'b' {
        11
    } else if c == 'c' {
        12
    } else if c == 'd' {
        13
    } else if c == 'e' {
        14
    } else if c == 'f' {
        15
    } else {
        -1
    }
}

/// One byte as a hexadecimal literal: the fixed `0x` prefix, then one digit
/// for a value below sixteen, else two. Not zero-padded.
pub open spec fn hex_literal(b: u8) -> Seq<char> {
    if b < 16 {
        seq!['0', 'x', hex_digit_char(b as int)]
    } else {
        seq!['0', 'x', hex_digit_char(b as int / 16), hex_digit_char(b as int % 16)]
    }
}

/// A byte sequence as comma-separated hexadecimal literals, in order, with
/// no trailing separator.
pub open spec fn hex_list(bs: Seq<u8>) -> Seq<char>
    decreases bs.len(),
{
    if bs.len() == 0 {
        Seq::empty()
    } else if bs.len() == 1 {
        hex_literal(bs[0])
    } else {
        hex_literal(bs[0]) + seq![','] + hex_list(bs.drop_first())
    }
}

/// The generated artifact up to and including the opening bracket of the
/// byte list: the provenance header and the constant declaration.
pub open spec fn artifact_prefix(kb: Seq<char>, arch: Seq<char>, triplet: Seq<char>) -> Seq<char> {
    "/// Automatically generated for: kernel_base="@ + kb + " arch="@ + arch + " triplet="@
        + triplet
        + " - DO NOT EDIT.\n\nuse lazy_static::lazy_static;\nlazy_static! {\n  pub static ref DATA: Vec<u8> = vec!["@
}

/// The generated artifact after the byte list: closing bracket and the rest
/// of the constant declaration.
pub open spec fn artifact_suffix() -> Seq<char> {
    "];\n}"@
}

/// The whole generated artifact for the given provenance values and bytes.
pub open spec fn generated_artifact(
    kb: Seq<char>,
    arch: Seq<char>,
    triplet: Seq<char>,
    bytes: Seq<u8>,
) -> Seq<char> {
    artifact_prefix(kb, arch, triplet) + hex_list(bytes) + artifact_suffix()
}

/// The index of the first comma, or the length when there is none.
pub open spec fn first_comma(s: Seq<char>) -> nat
    decreases s.len(),
{
    if s.len() == 0 {
        0
    } else if s[0] == ',' {
        0
    } else {
        1 + first_comma(s.drop_first())
    }
}

/// Parses one hexadecimal literal: the `0x` prefix and one or two digits.
pub open spec fn parse_literal(s: Seq<char>) -> Option<u8> {
    if s.len() == 3 && s[0] == '0' && s[1] == 'x' && hex_value(s[2]) >= 0 {
        Some(hex_value(s[2]) as u8)
    } else if s.len() == 4 && s[0] == '0' && s[1] == 'x' && hex_value(s[2]) >= 0 && hex_value(
        s[3],
    ) >= 0 {
        Some((16 * hex_value(s[2]) + hex_value(s[3])) as u8)
    } else {
        None
    }
}

/// Parses a comma-separated hexadecimal literal list. Empty text is the
/// empty byte sequence; otherwise every separator must be followed by
/// another literal.
pub open spec fn parse_hex_list(s: Seq<char>) -> Option<Seq<u8>>
    decreases s.len(),
{
    if s.len() == 0 {
        Some(Seq::empty())
    } else {
        let k = first_comma(s) as int;
        match parse_literal(s.subrange(0, k)) {
            None => None,
            Some(b) => if k >= s.len() {
                Some(seq![b])
            } else {
                match parse_hex_list(s.subrange(k + 1, s.len() as int)) {
                    None => None,
                    Some(rest) => if rest.len() == 0 {
                        None
                    } else {
                        Some(seq![b] + rest)
                    },
                }
            },
        }
    }
}

/// The index of the last occurrence of `c`, or -1 when there is none.
pub open spec fn last_index_of(s: Seq<char>, c: char) -> int
    decreases s.len(),
{
    if s.len() == 0 {
        -1
    } else if s[s.len() - 1] == c {
        s.len() - 1
    } else {
        last_index_of(s.drop_last(), c)
    }
}

/// The index of the first occurrence of `c` at or after `from`, or the
/// length when there is none.
pub open spec fn first_index_from(s: Seq<char>, from: nat, c: char) -> int
    decreases s.len() - from,
{
    if from >= s.len() {
        s.len() as int
    } else if s[from as int] == c {
        from as int
    } else {
        first_index_from(s, from + 1, c)
    }
}

/// The byte-list text of an artifact: the characters between the last
/// opening bracket and the first closing bracket after it. In a generated
/// artifact that is exactly the hexadecimal literal list, whatever the
/// provenance values hold: nothing after the list's opening bracket can
/// contain another one.
pub open spec fn extract_payload(s: Seq<char>) -> Option<Seq<char>> {
    let i = last_index_of(s, '[');
    if i < 0 {
        None
    } else {
        let j = first_index_from(s, (i + 1) as nat, ']');
        if j >= s.len() {
            None
        } else {
            Some(s.subrange(i + 1, j))
        }
    }
}

/// The byte sequence recovered from an artifact's byte-list text.
pub open spec fn parse_artifact_text(s: Seq<char>) -> Option<Seq<u8>> {
    match extract_payload(s) {
        None => None,
        Some(p) => parse_hex_list(p),
    }
}

/// The digit character for a value below sixteen.
fn hex_digit_str(d: u8) -> (r: &'static str)
    requires
        d < 16,
    ensures
        r@ =~= seq![hex_digit_char(d as int)],
{
    proof {
        reveal_strlit("0");
        reveal_strlit("1");
        reveal_strlit("2");
        reveal_strlit("3");
        reveal_strlit("4");
        reveal_strlit("5");
        reveal_strlit("6");
        reveal_strlit("7");
        reveal_strlit("8");
        reveal_strlit("9");
        reveal_strlit("a");
        reveal_strlit("b");
        reveal_strlit("c");
        reveal_strlit("d");
        reveal_strlit("e");
        reveal_strlit("f");
    }
    if d == 0 {
        "0"
    } else if d == 1 {
        "1"
    } else if d == 2 {
        "2"
    } else if d == 3 {
        "3"
    } else if d == 4 {
        "4"
    } else if d == 5 {
        "5"
    } else if d == 6 {
        "6"
    } else if d == 7 {
        "7"
    } else if d == 8 {
        "8"
    } else if d == 9 {
        "9"
    } else if d == 10 {
        "a"
    } else if d == 11 {
        "b"
    } else if d == 12 {
        "c"
    } else if d == 13 {
        "d"
    } else if d == 14 {
        "e"
    } else {
        "f"
    }
}

/// One byte rendered as its hexadecimal literal.
pub fn hex_literal_string(b: u8) -> (r: String)
    ensures
        r@ == hex_literal(b),
{
    proof {
        reveal_strlit("0x");
    }
    if b < 16 {
        let r = String::from_str("0x").concat(hex_digit_str(b));
        proof {
            assert(r@ =~= hex_literal(b));
        }
        r
    } else {
        let r = String::from_str("0x").concat(hex_digit_str(b / 16)).concat(hex_digit_str(b % 16));
        proof {
            assert(r@ =~= hex_literal(b));
        }
        r
    }
}

/// Appending one byte to a rendered list appends a separator (when the list
/// was non-empty) and the byte's literal.
proof fn lemma_hex_list_snoc(bs: Seq<u8>, b: u8)
    ensures
        bs.len() == 0 ==> hex_list(bs.push(b)) == hex_literal(b),
        bs.len() > 0 ==> hex_list(bs.push(b)) == hex_list(bs) + seq![','] + hex_literal(b),
    decreases bs.len(),
{
    if bs.len() == 0 {
        assert(bs.push(b).len() == 1);
        assert(bs.push(b)[0] == b);
    } else {
        let t = bs.push(b);
        assert(t.len() >= 2);
        assert(t[0] == bs[0]);
        assert(t.drop_first() =~= bs.drop_first().push(b));
        lemma_hex_list_snoc(bs.drop_first(), b);
        assert(hex_list(t) =~= hex_list(bs) + seq![','] + hex_literal(b));
    }
}

/// Renders the comma-separated hexadecimal literal list for the bytes.
pub fn render_hex_list(bytes: &Vec<u8>) -> (r: String)
    ensures
        r@ == hex_list(bytes@),
{
    let mut code = String::new();
    let mut i: usize = 0;
    while i < bytes.len()
        invariant
            i <= bytes.len(),
            code@ == hex_list(bytes@.subrange(0, i as int)),
        decreases bytes.len() - i,
    {
        let lit = hex_literal_string(bytes[i]);
        proof {
            reveal_strlit(",");
            lemma_hex_list_snoc(bytes@.subrange(0, i as int), bytes@[i as int]);
            assert(bytes@.subrange(0, i as int).push(bytes@[i as int]) =~= bytes@.subrange(
                0,
                i as int + 1,
            ));
        }
        if i > 0 {
            code.append(",");
        }
        code.append(lit.as_str());
        i = i + 1;
    }
    proof {
        assert(bytes@.subrange(0, bytes@.len() as int) =~= bytes@);
    }
    code
}

/// Produces the generated source artifact embedding the object's bytes,
/// with the resolved kernel base, architecture and triplet echoed into the
/// provenance header.
pub fn embed_object(bytes: &Vec<u8>, ctx: &BuildContext) -> (r: String)
    ensures
        r@ == generated_artifact(ctx.kernel_base@, ctx.arch@, ctx.triplet@, bytes@),
{
    let code = render_hex_list(bytes);
    let r = String::from_str("/// Automatically generated for: kernel_base=").concat(
        ctx.kernel_base.as_str(),
    ).concat(" arch=").concat(ctx.arch.as_str()).concat(" triplet=").concat(
        ctx.triplet.as_str(),
    ).concat(
        " - DO NOT EDIT.\n\nuse lazy_static::lazy_static;\nlazy_static! {\n  pub static ref DATA: Vec<u8> = vec![",
    ).concat(code.as_str()).concat("];\n}");
    proof {
        assert(r@ =~= generated_artifact(ctx.kernel_base@, ctx.arch@, ctx.triplet@, bytes@));
    }
    r
}

/// The value of a hexadecimal digit character, or -1 for any other.
fn hex_value_of(c: char) -> (r: i16)
    ensures
        r as int == hex_value(c),
{
    if c == '0' {
        0
    } else if c == '1' {
        1
    } else if c == '2' {
        2
    } else if c == '3' {
        3
    } else if c == '4' {
        4
    } else if c == '5' {
        5
    } else if c == '6' {
        6
    } else if c == '7' {
        7
    } else if c == '8' {
        8
    } else if c == '9' {
        9
    } else if c == 'a' {
        10
    } else if c == 'b' {
        11
    } else if c == 'c' {
        12
    } else if c == 'd' {
        13
    } else if c == 'e' {
        14
    } else if c == 'f' {
        15
    } else {
        -1
    }
}

/// The relation a partly consumed list keeps to the whole one: the whole
/// list parses to the bytes already accumulated followed by whatever the
/// remaining text parses to, and fails exactly where the remainder does.
spec fn parse_acc_inv(whole: Seq<char>, remaining: Seq<char>, acc: Seq<u8>) -> bool {
    parse_hex_list(whole) == (match parse_hex_list(remaining) {
        None => None::<Seq<u8>>,
        Some(t) => if t.len() == 0 {
            None
        } else {
            Some(acc + t)
        },
    })
}

/// Parses the characters of `s` between `lo` and `hi` as a hexadecimal
/// literal list.
fn parse_region(s: &str, lo: usize, hi: usize) -> (r: Option<Vec<u8>>)
    requires
        lo <= hi <= s@.len(),
    ensures
        r.deep_view() == parse_hex_list(s@.subrange(lo as int, hi as int)),
{
    let ghost whole = s@.subrange(lo as int, hi as int);
    let mut result: Vec<u8> = Vec::new();
    let mut pos = lo;
    if pos == hi {
        proof {
            assert(whole =~= Seq::<char>::empty());
            assert(result.deep_view() =~= Seq::<u8>::empty());
        }
        return Some(result);
    }
    proof {
        lemma_parse_nonempty(whole);
        if parse_hex_list(whole) is Some {
            let t = parse_hex_list(whole)->Some_0;
            assert(result@ + t =~= t);
        }
        assert(parse_acc_inv(whole, whole, result@));
    }
    loop
        invariant
            lo <= pos < hi <= s@.len(),
            whole == s@.subrange(lo as int, hi as int),
            parse_acc_inv(whole, s@.subrange(pos as int, hi as int), result@),
        decreases hi - pos,
    {
        let ghost suffix = s@.subrange(pos as int, hi as int);
        // find the end of the current literal: the next comma, or `hi`
        let mut m = pos;
        while m < hi && s.get_char(m) != ','
            invariant
                pos <= m <= hi <= s@.len(),
                forall|j: int| pos <= j < m ==> s@[j] != ',',
            decreases hi - m,
        {
            m = m + 1;
        }
        proof {
            assert forall|j: int| 0 <= j < m - pos implies suffix[j] != ',' by {
                assert(suffix[j] == s@[pos + j]);
            }
            if m < hi {
                assert(suffix[m - pos] == s@[m as int]);
            }
            lemma_first_comma_at(suffix, m - pos);
        }
        let ghost k = (m - pos) as int;
        let ghost lit = suffix.subrange(0, k);
        let b: u8;
        if m - pos == 3 {
            let c0 = s.get_char(pos);
            let c1 = s.get_char(pos + 1);
            let d = hex_value_of(s.get_char(pos + 2));
            proof {
                assert(lit[0] == s@[pos as int]);
                assert(lit[1] == s@[pos as int + 1]);
                assert(lit[2] == s@[pos as int + 2]);
            }
            if c0 == '0' && c1 == 'x' && d >= 0 {
                b = d as u8;
                proof {
                    assert(parse_literal(lit) == Some(b));
                }
            } else {
                proof {
                    assert(parse_literal(lit) is None);
                    assert(parse_hex_list(suffix) is None);
                }
                return None;
            }
        } else if m - pos == 4 {
            let c0 = s.get_char(pos);
            let c1 = s.get_char(pos + 1);
            let d1 = hex_value_of(s.get_char(pos + 2));
            let d2 = hex_value_of(s.get_char(pos + 3));
            proof {
                assert(lit[0] == s@[pos as int]);
                assert(lit[1] == s@[pos as int + 1]);
                assert(lit[2] == s@[pos as int + 2]);
                assert(lit[3] == s@[pos as int + 3]);
            }
            if c0 == '0' && c1 == 'x' && d1 >= 0 && d2 >= 0 {
                proof {
                    assert(0 <= hex_value(lit[2]) < 16);
                    assert(0 <= hex_value(lit[3]) < 16);
                }
                b = (16 * d1 + d2) as u8;
                proof {
                    assert(parse_literal(lit) == Some(b));
                }
            } else {
                proof {
                    assert(parse_literal(lit) is None);
                    assert(parse_hex_list(suffix) is None);
                }
                return None;
            }
        } else {
            proof {
                assert(lit.len() != 3 && lit.len() != 4);
                assert(parse_literal(lit) is None);
                assert(parse_hex_list(suffix) is None);
            }
            return None;
        }
        let ghost old_acc = result@;
        result.push(b);
        if m == hi {
            proof {
                assert(k == suffix.len());
                assert(parse_hex_list(suffix) == Some(seq![b]));
                assert(old_acc + seq![b] =~= result@);
                assert(parse_hex_list(whole) == Some(result@));
                assert(result.deep_view() =~= result@);
            }
            return Some(result);
        }
        pos = m + 1;
        if pos == hi {
            proof {
                let rest = suffix.subrange(k + 1, suffix.len() as int);
                assert(rest =~= Seq::<char>::empty());
                assert(parse_hex_list(rest) == Some(Seq::<u8>::empty()));
                assert(parse_hex_list(suffix) is None);
            }
            return None;
        }
        proof {
            let rest = suffix.subrange(k + 1, suffix.len() as int);
            assert(s@.subrange(pos as int, hi as int) =~= rest);
            lemma_parse_nonempty(rest);
            if parse_hex_list(rest) is Some {
                let t = parse_hex_list(rest)->Some_0;
                assert(parse_hex_list(suffix) == Some(seq![b] + t));
                assert(old_acc + (seq![b] + t) =~= result@ + t);
            }
            assert(parse_acc_inv(whole, rest, result@));
        }
    }
}

/// Recovers the embedded byte sequence from a generated artifact: locates
/// the byte list between the last opening bracket and the first closing
/// bracket after it, and parses the hexadecimal literals.
pub fn parse_artifact(text: &str) -> (r: Option<Vec<u8>>)
    ensures
        r.deep_view() == parse_artifact_text(text@),
{
    let n = text.unicode_len();
    let mut k = n;
    while k > 0 && text.get_char(k - 1) != '['
        invariant
            k <= n == text@.len(),
            forall|j: int| k <= j < n ==> text@[j] != '[',
        decreases k,
    {
        k = k - 1;
    }
    if k == 0 {
        proof {
            lemma_last_index_of_at(text@, '[', -1);
        }
        return None;
    }
    let i = k - 1;
    proof {
        lemma_last_index_of_at(text@, '[', i as int);
    }
    let mut j = i + 1;
    while j < n && text.get_char(j) != ']'
        invariant
            i + 1 <= j <= n == text@.len(),
            forall|m: int| i + 1 <= m < j ==> text@[m] != ']',
        decreases n - j,
    {
        j = j + 1;
    }
    proof {
        lemma_first_index_from_at(text@, (i + 1) as nat, ']', j as int);
    }
    if j == n {
        return None;
    }
    parse_region(text, i + 1, j)
}

/// Rendering a digit and reading it back is the identity.
proof fn lemma_hex_digit_char_value(d: int)
    requires
        0 <= d < 16,
    ensures
        hex_value(hex_digit_char(d)) == d,
        hex_digit_char(d) != ',',
        hex_digit_char(d) != '[',
        hex_digit_char(d) != ']',
{
}

/// A rendered literal holds no separator or bracket, and parses back to its
/// byte.
proof fn lemma_hex_literal_shape(b: u8)
    ensures
        3 <= hex_literal(b).len() <= 4,
        forall|i: int|
            0 <= i < hex_literal(b).len() ==> hex_literal(b)[i] != ',' && hex_literal(b)[i] != '['
                && hex_literal(b)[i] != ']',
        parse_literal(hex_literal(b)) == Some(b),
{
    if b < 16 {
        lemma_hex_digit_char_value(b as int);
    } else {
        lemma_hex_digit_char_value(b as int / 16);
        lemma_hex_digit_char_value(b as int % 16);
        assert(16 * (b as int / 16) + (b as int % 16) == b) by {
            vstd::arithmetic::div_mod::lemma_fundamental_div_mod(b as int, 16);
        }
    }
}

/// `first_comma` finds exactly the position with no comma before it.
proof fn lemma_first_comma_at(s: Seq<char>, k: int)
    requires
        0 <= k <= s.len(),
        forall|j: int| 0 <= j < k ==> s[j] != ',',
        k < s.len() ==> s[k] == ',',
    ensures
        first_comma(s) == k,
    decreases s.len(),
{
    if s.len() == 0 {
    } else if k == 0 {
    } else {
        assert(s[0] != ',');
        let t = s.drop_first();
        assert(forall|j: int| 0 <= j < k - 1 ==> t[j] == s[j + 1] && t[j] != ',');
        assert(k - 1 < t.len() ==> t[k - 1] == s[k]);
        lemma_first_comma_at(t, k - 1);
    }
}

/// `last_index_of` finds exactly the position with no later occurrence.
proof fn lemma_last_index_of_at(s: Seq<char>, c: char, i: int)
    requires
        -1 <= i < s.len(),
        i >= 0 ==> s[i] == c,
        forall|j: int| i < j < s.len() ==> s[j] != c,
    ensures
        last_index_of(s, c) == i,
    decreases s.len(),
{
    if s.len() == 0 {
    } else if i == s.len() - 1 {
    } else {
        assert(s[s.len() - 1] != c);
        let t = s.drop_last();
        assert(forall|j: int| i < j < t.len() ==> t[j] == s[j] && t[j] != c);
        lemma_last_index_of_at(t, c, i);
    }
}

/// `first_index_from` finds exactly the position with no earlier occurrence
/// at or after `from`; `j == s.len()` states that there is none.
proof fn lemma_first_index_from_at(s: Seq<char>, from: nat, c: char, j: int)
    requires
        from <= j <= s.len(),
        forall|m: int| from <= m < j ==> s[m] != c,
        j < s.len() ==> s[j] == c,
    ensures
        first_index_from(s, from, c) == j,
    decreases s.len() - from,
{
    if from >= s.len() {
    } else if s[from as int] == c {
        assert(j == from);
    } else {
        assert(j > from);
        lemma_first_index_from_at(s, from + 1, c, j);
    }
}

/// A rendered list holds no bracket.
proof fn lemma_hex_list_chars(bs: Seq<u8>)
    ensures
        forall|i: int|
            0 <= i < hex_list(bs).len() ==> hex_list(bs)[i] != '[' && hex_list(bs)[i] != ']',
    decreases bs.len(),
{
    if bs.len() == 0 {
    } else if bs.len() == 1 {
        lemma_hex_literal_shape(bs[0]);
    } else {
        lemma_hex_literal_shape(bs[0]);
        lemma_hex_list_chars(bs.drop_first());
        let lit = hex_literal(bs[0]);
        let rest = hex_list(bs.drop_first());
        assert forall|i: int| 0 <= i < hex_list(bs).len() implies hex_list(bs)[i] != '[' && hex_list(
            bs,
        )[i] != ']' by {
            if i < lit.len() {
                assert(hex_list(bs)[i] == lit[i]);
            } else if i == lit.len() {
                assert(hex_list(bs)[i] == ',');
            } else {
                assert(hex_list(bs)[i] == rest[i - lit.len() - 1]);
            }
        }
    }
}

/// A parsed non-empty list is non-empty.
proof fn lemma_parse_nonempty(s: Seq<char>)
    requires
        s.len() > 0,
    ensures
        parse_hex_list(s) matches Some(t) ==> t.len() > 0,
{
}

/// Law: parsing a rendered hexadecimal literal list reproduces the bytes
/// exactly, for every byte sequence.
pub proof fn lemma_hex_list_round_trip(bs: Seq<u8>)
    ensures
        parse_hex_list(hex_list(bs)) == Some(bs),
    decreases bs.len(),
{
    let s = hex_list(bs);
    if bs.len() == 0 {
        assert(bs =~= Seq::<u8>::empty());
    } else if bs.len() == 1 {
        lemma_hex_literal_shape(bs[0]);
        lemma_first_comma_at(s, s.len() as int);
        assert(s.subrange(0, s.len() as int) =~= s);
        assert(seq![bs[0]] =~= bs);
    } else {
        let lit = hex_literal(bs[0]);
        let rest = hex_list(bs.drop_first());
        lemma_hex_literal_shape(bs[0]);
        let k = lit.len() as int;
        assert forall|j: int| 0 <= j < k implies s[j] != ',' by {
            assert(s[j] == lit[j]);
        }
        assert(s[k] == ',');
        lemma_first_comma_at(s, k);
        assert(s.subrange(0, k) =~= lit);
        assert(s.subrange(k + 1, s.len() as int) =~= rest);
        lemma_hex_list_round_trip(bs.drop_first());
        assert(seq![bs[0]] + bs.drop_first() =~= bs);
    }
}

/// Law: parsing the byte list out of a generated artifact reproduces the
/// embedded byte sequence exactly, for every byte sequence and all
/// provenance values.
pub proof fn lemma_artifact_round_trip(
    kb: Seq<char>,
    arch: Seq<char>,
    triplet: Seq<char>,
    bytes: Seq<u8>,
)
    ensures
        parse_artifact_text(generated_artifact(kb, arch, triplet, bytes)) == Some(bytes),
{
    let p = artifact_prefix(kb, arch, triplet);
    let l = hex_list(bytes);
    let suf = artifact_suffix();
    let s = generated_artifact(kb, arch, triplet, bytes);
    reveal_strlit(
        " - DO NOT EDIT.\n\nuse lazy_static::lazy_static;\nlazy_static! {\n  pub static ref DATA: Vec<u8> = vec![",
    );
    reveal_strlit("];\n}");
    let tail =
        " - DO NOT EDIT.\n\nuse lazy_static::lazy_static;\nlazy_static! {\n  pub static ref DATA: Vec<u8> = vec!["@;
    assert(p.len() > 0);
    assert(p[p.len() - 1] == tail[tail.len() - 1]);
    assert(p[p.len() - 1] == '[');
    lemma_hex_list_chars(bytes);
    assert forall|j: int| p.len() - 1 < j < s.len() implies s[j] != '[' by {
        if j < p.len() + l.len() {
            assert(s[j] == l[j - p.len()]);
        } else {
            assert(s[j] == suf[j - p.len() - l.len()]);
        }
    }
    lemma_last_index_of_at(s, '[', p.len() - 1);
    assert forall|m: int| p.len() <= m < p.len() + l.len() implies s[m] != ']' by {
        assert(s[m] == l[m - p.len()]);
    }
    assert(s[p.len() + l.len() as int] == suf[0]);
    assert(s[p.len() + l.len() as int] == ']');
    lemma_first_index_from_at(s, p.len() as nat, ']', p.len() + l.len() as int);
    assert(s.subrange(p.len() as int, p.len() + l.len() as int) =~= l);
    lemma_hex_list_round_trip(bytes);
}

} // verus!
