use vstd::prelude::*;

verus! {

/// Relies on `String::push`: appends the given char to the end of the string.
pub assume_specification[ String::push ](s: &mut String, c: char)
    ensures
        final(s)@ == old(s)@.push(c),
;

/// The character for one decimal digit.
pub open spec fn digit_char(d: int) -> char {
    if d == 0 {
        '0'
    } else if d == 1 {
        '1'
    } else if d == 2 {
        '2'
    } else if d == 3 {
        '3'
    } else if d == 4 {
        '4'
    } else if d == 5 {
        '5'
    } else if d == 6 {
        '6'
    } else if d == 7 {
        '7'
    } else if d == 8 {
        '8'
    } else {
        '9'
    }
}

/// The decimal digits of a natural number, most significant first.
pub open spec fn dec_str(n: nat) -> Seq<char>
    decreases n,
{
    if n < 10 {
        seq![digit_char(n as int)]
    } else {
        dec_str(n / 10) + seq![digit_char((n % 10) as int)]
    }
}

/// The decimal text of an integer, with a leading minus sign when negative.
pub open spec fn int_str(i: int) -> Seq<char> {
    if i < 0 {
        seq!['-'] + dec_str((-i) as nat)
    } else {
        dec_str(i as nat)
    }
}

fn digit_to_char(d: u64) -> (c: char)
    requires
        d < 10,
    ensures
        c == digit_char(d as int),
{
    if d == 0 {
        '0'
    } else if d == 1 {
        '1'
    } else if d == 2 {
        '2'
    } else if d == 3 {
        '3'
    } else if d == 4 {
        '4'
    } else if d == 5 {
        '5'
    } else if d == 6 {
        '6'
    } else if d == 7 {
        '7'
    } else if d == 8 {
        '8'
    } else {
        '9'
    }
}

/// Appends the decimal digits of `n` to `s`.
pub fn push_dec(s: &mut String, n: u64)
    ensures
        final(s)@ == old(s)@ + dec_str(n as nat),
    decreases n,
{
    if n < 10 {
        let c = digit_to_char(n);
        s.push(c);
        proof {
            assert(final(s)@ =~= old(s)@ + dec_str(n as nat));
        }
    } else {
        push_dec(s, n / 10);
        let c = digit_to_char(n % 10);
        s.push(c);
        proof {
            assert(final(s)@ =~= old(s)@ + dec_str(n as nat));
        }
    }
}

/// The decimal text of a signed 32-bit integer.
pub fn i32_to_string(x: i32) -> (r: String)
    ensures
        r@ == int_str(x as int),
{
    let mut s = String::new();
    if x < 0 {
        s.push('-');
        let m: u64 = (-(x as i64)) as u64;
        push_dec(&mut s, m);
        proof {
            assert(s@ =~= int_str(x as int));
        }
    } else {
        push_dec(&mut s, x as u64);
    }
    s
}

/// The character for one lowercase hexadecimal digit.
pub open spec fn hex_digit(d: int) -> char {
    if d == 0 {
        '0'
    } else if d == 1 {
        '1'
    } else if d == 2 {
        '2'
    } else if d == 3 {
        '3'
    } else if d == 4 {
        '4'
    } else if d == 5 {
        '5'
    } else if d == 6 {
        '6'
    } else if d == 7 {
        '7'
    } else if d == 8 {
        '8'
    } else if d == 9 {
        '9'
    } else if d == 10 {
        'a'
    } else if d == 11 {
        'b'
    } else if d == 12 {
        'c'
    } else if d == 13 {
        'd'
    } else if d == 14 {
        'e'
    } else {
        'f'
    }
}

/// `width` lowercase hexadecimal digits of `n`, zero-padded on the left.
pub open spec fn hex_pad(n: nat, width: nat) -> Seq<char>
    decreases width,
{
    if width == 0 {
        Seq::empty()
    } else {
        hex_pad(n / 16, (width - 1) as nat) + seq![hex_digit((n % 16) as int)]
    }
}

fn hex_to_char(d: u64) -> (c: char)
    requires
        d < 16,
    ensures
        c == hex_digit(d as int),
{
    if d == 0 {
        '0'
    } else if d == 1 {
        '1'
    } else if d == 2 {
        '2'
    } else if d == 3 {
        '3'
    } else if d == 4 {
        '4'
    } else if d == 5 {
        '5'
    } else if d == 6 {
        '6'
    } else if d == 7 {
        '7'
    } else if d == 8 {
        '8'
    } else if d == 9 {
        '9'
    } else if d == 10 {
        'a'
    } else if d == 11 {
        'b'
    } else if d == 12 {
        'c'
    } else if d == 13 {
        'd'
    } else if d == 14 {
        'e'
    } else {
        'f'
    }
}

/// Appends exactly `width` hexadecimal digits of `n` to `s`.
pub fn push_hex_pad(s: &mut String, n: u128, width: u32)
    ensures
        final(s)@ == old(s)@ + hex_pad(n as nat, width as nat),
    decreases width,
{
    if width > 0 {
        push_hex_pad(s, n / 16, width - 1);
        let c = hex_to_char((n % 16) as u64);
        s.push(c);
        proof {
            assert(final(s)@ =~= old(s)@ + hex_pad(n as nat, width as nat));
        }
    } else {
        proof {
            assert(final(s)@ =~= old(s)@ + hex_pad(n as nat, width as nat));
        }
    }
}

/// The canonical hyphenated text of a 128-bit ticket id, in five
/// lowercase-hex groups of 8, 4, 4, 4 and 12 digits.
pub open spec fn uuid_str(t: u128) -> Seq<char> {
    hex_pad((t as nat) / 0x1000000000000000000000000, 8) + seq!['-'] + hex_pad(
        ((t as nat) / 0x100000000000000000000) % 0x10000,
        4,
    ) + seq!['-'] + hex_pad(((t as nat) / 0x10000000000000000) % 0x10000, 4) + seq!['-'] + hex_pad(
        ((t as nat) / 0x1000000000000) % 0x10000,
        4,
    ) + seq!['-'] + hex_pad((t as nat) % 0x1000000000000, 12)
}

/// Formats a ticket id as its canonical hyphenated text.
pub fn uuid_to_string(t: u128) -> (r: String)
    ensures
        r@ == uuid_str(t),
{
    let mut s = String::new();
    push_hex_pad(&mut s, t / 0x1000000000000000000000000, 8);
    s.push('-');
    push_hex_pad(&mut s, (t / 0x100000000000000000000) % 0x10000, 4);
    s.push('-');
    push_hex_pad(&mut s, (t / 0x10000000000000000) % 0x10000, 4);
    s.push('-');
    push_hex_pad(&mut s, (t / 0x1000000000000) % 0x10000, 4);
    s.push('-');
    push_hex_pad(&mut s, t % 0x1000000000000, 12);
    proof {
        assert(s@ =~= uuid_str(t));
    }
    s
}

/// How one character is written inside a JSON string literal.
pub open spec fn json_escape_char(c: char) -> Seq<char> {
    if c == '"' {
        seq!['\\', '"']
    } else if c == '\\' {
        seq!['\\', '\\']
    } else if c == '\n' {
        seq!['\\', 'n']
    } else if c == '\r' {
        seq!['\\', 'r']
    } else if c == '\t' {
        seq!['\\', 't']
    } else if (c as int) < 0x20 {
        seq!['\\', 'u', '0', '0', hex_digit((c as int) / 16), hex_digit((c as int) % 16)]
    } else {
        seq![c]
    }
}

/// The body of a JSON string literal holding `s`.
pub open spec fn json_escaped(s: Seq<char>) -> Seq<char>
    decreases s.len(),
{
    if s.len() == 0 {
        Seq::empty()
    } else {
        json_escaped(s.drop_last()) + json_escape_char(s.last())
    }
}

/// A complete JSON string literal holding `s`, quotes included.
pub open spec fn json_str(s: Seq<char>) -> Seq<char> {
    seq!['"'] + json_escaped(s) + seq!['"']
}

fn escape_char_string(c: char) -> (r: String)
    ensures
        r@ == json_escape_char(c),
{
    let mut r = String::new();
    if c == '"' {
        r.push('\\');
        r.push('"');
        proof {
            assert(r@ =~= json_escape_char(c));
        }
    } else if c == '\\' {
        r.push('\\');
        r.push('\\');
        proof {
            assert(r@ =~= json_escape_char(c));
        }
    } else if c == '\n' {
        r.push('\\');
        r.push('n');
        proof {
            assert(r@ =~= json_escape_char(c));
        }
    } else if c == '\r' {
        r.push('\\');
        r.push('r');
        proof {
            assert(r@ =~= json_escape_char(c));
        }
    } else if c == '\t' {
        r.push('\\');
        r.push('t');
        proof {
            assert(r@ =~= json_escape_char(c));
        }
    } else if (c as u32) < 0x20 {
        r.push('\\');
        r.push('u');
        r.push('0');
        r.push('0');
        let d1 = hex_to_char(((c as u32) / 16) as u64);
        r.push(d1);
        let d2 = hex_to_char(((c as u32) % 16) as u64);
        r.push(d2);
        proof {
            assert(r@ =~= json_escape_char(c));
        }
    } else {
        r.push(c);
        proof {
            assert(r@ =~= json_escape_char(c));
        }
    }
    r
}

/// Appends the escaped body of a JSON string literal holding `s`.
pub fn push_json_escaped(out: &mut String, s: &str)
    ensures
        final(out)@ == old(out)@ + json_escaped(s@),
{
    let n = s.unicode_len();
    let mut i: usize = 0;
    while i < n
        invariant
            i <= n,
            n == s@.len(),
            out@ == old(out)@ + json_escaped(s@.take(i as int)),
        decreases n - i,
    {
        let c = s.get_char(i);
        let esc = escape_char_string(c);
        out.append(esc.as_str());
        proof {
            assert(s@.take(i as int + 1).drop_last() =~= s@.take(i as int));
            assert(s@.take(i as int + 1).last() == c);
            assert(out@ =~= old(out)@ + json_escaped(s@.take(i as int + 1)));
        }
        i += 1;
    }
    proof {
        assert(s@.take(n as int) =~= s@);
    }
}

/// Appends a complete JSON string literal holding `s`, quotes included.
pub fn push_json_str(out: &mut String, s: &str)
    ensures
        final(out)@ == old(out)@ + json_str(s@),
{
    out.push('"');
    push_json_escaped(out, s);
    out.push('"');
    proof {
        assert(final(out)@ =~= old(out)@ + json_str(s@));
    }
}

/// Whether two string slices hold the same characters.
pub fn str_eq(a: &str, b: &str) -> (r: bool)
    ensures
        r == (a@ == b@),
{
    let na = a.unicode_len();
    let nb = b.unicode_len();
    if na != nb {
        return false;
    }
    let mut i: usize = 0;
    while i < na
        invariant
            i <= na,
            na == a@.len(),
            na == b@.len(),
            forall|k: int| 0 <= k < i ==> a@[k] == b@[k],
        decreases na - i,
    {
        let ca = a.get_char(i);
        let cb = b.get_char(i);
        if ca != cb {
            return false;
        }
        i += 1;
    }
    proof {
        assert(a@ =~= b@);
    }
    true
}

/// One `key=value` pair of a query string.
pub open spec fn query_pair_str(p: (Seq<char>, Seq<char>)) -> Seq<char> {
    p.0 + seq!['='] + p.1
}

/// `key=value` pairs joined with `&`.
pub open spec fn query_join(ps: Seq<(Seq<char>, Seq<char>)>) -> Seq<char>
    decreases ps.len(),
{
    if ps.len() == 0 {
        Seq::empty()
    } else if ps.len() == 1 {
        query_pair_str(ps[0])
    } else {
        query_join(ps.drop_last()) + seq!['&'] + query_pair_str(ps.last())
    }
}

/// The views of a list of string pairs.
pub open spec fn pairs_view(params: Seq<(String, String)>) -> Seq<(Seq<char>, Seq<char>)> {
    params.map_values(|p: (String, String)| (p.0@, p.1@))
}

/// Renders a path with its query parameters appended, `?k=v&k=v` style.
pub fn make_path_and_query(path: &str, params: &Vec<(String, String)>) -> (r: String)
    ensures
        r@ == if params@.len() == 0 {
            path@
        } else {
            path@ + seq!['?'] + query_join(pairs_view(params@))
        },
{
    let mut out = String::from_str(path);
    if params.len() == 0 {
        return out;
    }
    out.push('?');
    let mut i: usize = 0;
    while i < params.len()
        invariant
            0 < i <= params@.len() || i == 0,
            out@ == if i == 0 {
                path@ + seq!['?']
            } else {
                path@ + seq!['?'] + query_join(pairs_view(params@).take(i as int))
            },
        decreases params@.len() - i,
    {
        if i > 0 {
            out.push('&');
        }
        let pair = &params[i];
        out.append(pair.0.as_str());
        out.push('=');
        out.append(pair.1.as_str());
        proof {
            let pv = pairs_view(params@);
            assert(pv.take(i as int + 1).drop_last() =~= pv.take(i as int));
            assert(pv.take(i as int + 1).last() == pv[i as int]);
            assert(out@ =~= path@ + seq!['?'] + query_join(pv.take(i as int + 1)));
        }
        i += 1;
    }
    proof {
        assert(pairs_view(params@).take(params@.len() as int) =~= pairs_view(params@));
    }
    out
}

} // verus!
