//! Text formats used when exporting: CSV fields and standard Base64.

use vstd::prelude::*;
use crate::text::{str_to_chars, chars_to_string};
use crate::decimal::{spec_decimal, u64_to_string};

verus! {

/// `s` with every double quote doubled.
pub open spec fn double_quotes(s: Seq<char>) -> Seq<char>
    decreases s.len(),
{
    if s.len() == 0 {
        s
    } else if s.last() == '"' {
        double_quotes(s.drop_last()) + seq!['"', '"']
    } else {
        double_quotes(s.drop_last()).push(s.last())
    }
}

/// A CSV field: quoted, with inner quotes doubled, when it holds a comma,
/// a double quote or a line feed; as it is otherwise.
pub open spec fn spec_csv_escape(s: Seq<char>) -> Seq<char> {
    if s.contains(',') || s.contains('"') || s.contains('\n') {
        seq!['"'] + double_quotes(s) + seq!['"']
    } else {
        s
    }
}

/// Escapes one CSV field (see [`spec_csv_escape`]).
pub fn csv_escape(s: &str) -> (r: String)
    ensures
        r@ == spec_csv_escape(s@),
{
    let cs = str_to_chars(s);
    let mut needs = false;
    let mut k: usize = 0;
    while k < cs.len()
        invariant
            k <= cs@.len(),
            needs == exists|j: int| 0 <= j < k && (cs@[j] == ',' || cs@[j] == '"' || cs@[j] == '\n'),
        decreases cs.len() - k,
    {
        let c = cs[k];
        if c == ',' || c == '"' || c == '\n' {
            needs = true;
        }
        k = k + 1;
    }
    if !needs {
        assert(!s@.contains(',') && !s@.contains('"') && !s@.contains('\n'));
        return s.to_string();
    }
    proof {
        let j = choose|j: int| 0 <= j < cs@.len() && (cs@[j] == ',' || cs@[j] == '"' || cs@[j] == '\n');
        assert(cs@[j] == s@[j]);
    }
    let mut out: Vec<char> = Vec::new();
    out.push('"');
    let mut k: usize = 0;
    while k < cs.len()
        invariant
            k <= cs@.len(),
            out@ == seq!['"'] + double_quotes(cs@.subrange(0, k as int)),
        decreases cs.len() - k,
    {
        assert(cs@.subrange(0, k + 1).drop_last() =~= cs@.subrange(0, k as int));
        let c = cs[k];
        out.push(c);
        if c == '"' {
            out.push('"');
        }
        assert(out@ =~= seq!['"'] + double_quotes(cs@.subrange(0, k + 1)));
        k = k + 1;
    }
    out.push('"');
    assert(cs@.subrange(0, cs@.len() as int) =~= cs@);
    assert(out@ =~= spec_csv_escape(s@));
    chars_to_string(out.as_slice())
}

/// The decimal text of a signed number, with a leading `-` when negative.
pub open spec fn spec_signed_decimal(n: i64) -> Seq<char> {
    if n < 0 {
        seq!['-'] + spec_decimal((-n) as nat)
    } else {
        spec_decimal(n as nat)
    }
}

/// `n.to_string()` for an `i64`.
pub fn i64_to_string(n: i64) -> (s: String)
    ensures
        s@ == spec_signed_decimal(n),
{
    if n < 0 {
        let m: u64 = if n == i64::MIN {
            0x8000_0000_0000_0000
        } else {
            (-n) as u64
        };
        let mut v = vec!['-'];
        let mut d = str_to_chars(u64_to_string(m).as_str());
        v.append(&mut d);
        chars_to_string(v.as_slice())
    } else {
        u64_to_string(n as u64)
    }
}

/// One exported session: application, category, start, end, seconds.
pub struct CsvSession {
    pub name: String,
    pub category_id: String,
    pub start_at: String,
    pub end_at: String,
    pub duration_seconds: i64,
}

pub open spec fn csv_header() -> Seq<char> {
    "app_name,category_id,start_at,end_at,duration_seconds\n"@
}

/// The CSV line of one session.
pub open spec fn spec_csv_line(r: CsvSession) -> Seq<char> {
    spec_csv_escape(r.name@) + seq![','] + spec_csv_escape(r.category_id@) + seq![',']
        + spec_csv_escape(r.start_at@) + seq![','] + spec_csv_escape(r.end_at@) + seq![',']
        + spec_signed_decimal(r.duration_seconds) + seq!['\n']
}

/// The header followed by the lines of `rows[..n]`.
pub open spec fn spec_csv_document(rows: Seq<CsvSession>, n: int) -> Seq<char>
    decreases n,
{
    if n <= 0 {
        csv_header()
    } else {
        spec_csv_document(rows, n - 1) + spec_csv_line(rows[n - 1])
    }
}

fn push_str(out: &mut Vec<char>, s: &str)
    ensures
        final(out)@ == old(out)@ + s@,
{
    let mut t = str_to_chars(s);
    out.append(&mut t);
}

/// The CSV export of a day's sessions: a header line, then one line per
/// session in the given order.
pub fn csv_document(rows: &Vec<CsvSession>) -> (r: String)
    ensures
        r@ == spec_csv_document(rows@, rows@.len() as int),
{
    let mut out = str_to_chars("app_name,category_id,start_at,end_at,duration_seconds\n");
    let mut k: usize = 0;
    while k < rows.len()
        invariant
            k <= rows@.len(),
            out@ == spec_csv_document(rows@, k as int),
        decreases rows.len() - k,
    {
        let row = &rows[k];
        let ghost before = out@;
        push_str(&mut out, csv_escape(row.name.as_str()).as_str());
        out.push(',');
        push_str(&mut out, csv_escape(row.category_id.as_str()).as_str());
        out.push(',');
        push_str(&mut out, csv_escape(row.start_at.as_str()).as_str());
        out.push(',');
        push_str(&mut out, csv_escape(row.end_at.as_str()).as_str());
        out.push(',');
        push_str(&mut out, i64_to_string(row.duration_seconds).as_str());
        out.push('\n');
        assert(out@ =~= before + spec_csv_line(rows@[k as int]));
        k = k + 1;
    }
    chars_to_string(out.as_slice())
}

/// The Base64 alphabet character for a 6-bit value.
pub open spec fn b64_char(v: nat) -> char {
    if v < 26 {
        (v + 65) as char
    } else if v < 52 {
        (v + 71) as char
    } else if v < 62 {
        (v - 4) as char
    } else if v == 62 {
        '+'
    } else {
        '/'
    }
}

/// Standard Base64 (RFC 4648 alphabet, `=` padding) of `data`.
pub open spec fn spec_base64(data: Seq<u8>) -> Seq<char>
    decreases data.len(),
{
    if data.len() == 0 {
        Seq::empty()
    } else if data.len() == 1 {
        let n = data[0] as nat * 65536;
        seq![b64_char(n / 262144 % 64), b64_char(n / 4096 % 64), '=', '=']
    } else if data.len() == 2 {
        let n = data[0] as nat * 65536 + data[1] as nat * 256;
        seq![b64_char(n / 262144 % 64), b64_char(n / 4096 % 64), b64_char(n / 64 % 64), '=']
    } else {
        let n = data[0] as nat * 65536 + data[1] as nat * 256 + data[2] as nat;
        seq![b64_char(n / 262144 % 64), b64_char(n / 4096 % 64), b64_char(n / 64 % 64), b64_char(n % 64)]
            + spec_base64(data.subrange(3, data.len() as int))
    }
}

fn b64_of(v: u32) -> (c: char)
    requires
        v < 64,
    ensures
        c == b64_char(v as nat),
{
    let b = v as u8;
    if b < 26 {
        (b + 65) as char
    } else if b < 52 {
        (b + 71) as char
    } else if b < 62 {
        (b - 4) as char
    } else if b == 62 {
        '+'
    } else {
        '/'
    }
}

/// The four alphabet characters that encode the 24 bits `b0 b1 b2`.
pub open spec fn group_value(b0: u8, b1: u8, b2: u8) -> nat {
    b0 as nat * 65536 + b1 as nat * 256 + b2 as nat
}

fn group_chars(b0: u8, b1: u8, b2: u8) -> (r: (char, char, char, char))
    ensures
        r.0 == b64_char(group_value(b0, b1, b2) / 262144 % 64),
        r.1 == b64_char(group_value(b0, b1, b2) / 4096 % 64),
        r.2 == b64_char(group_value(b0, b1, b2) / 64 % 64),
        r.3 == b64_char(group_value(b0, b1, b2) % 64),
{
    let n: u32 = (b0 as u32) * 65536 + (b1 as u32) * 256 + (b2 as u32);
    (b64_of(n / 262144 % 64), b64_of(n / 4096 % 64), b64_of(n / 64 % 64), b64_of(n % 64))
}

/// Standard Base64 encoding (see [`spec_base64`]).
pub fn to_base64(data: &[u8]) -> (s: String)
    ensures
        s@ == spec_base64(data@),
{
    let mut out: Vec<char> = Vec::new();
    let mut i: usize = 0;
    assert(data@.subrange(0, data@.len() as int) =~= data@);
    assert(out@ + spec_base64(data@) =~= spec_base64(data@));
    while i < data.len()
        invariant
            i <= data@.len(),
            out@ + spec_base64(data@.subrange(i as int, data@.len() as int)) == spec_base64(data@),
        decreases data.len() - i,
    {
        let rest = data.len() - i;
        let ghost tail = data@.subrange(i as int, data@.len() as int);
        let b0 = data[i];
        let b1 = if rest > 1 {
            data[i + 1]
        } else {
            0
        };
        let b2 = if rest > 2 {
            data[i + 2]
        } else {
            0
        };
        let (c0, c1, c2, c3) = group_chars(b0, b1, b2);
        let ghost before = out@;
        if rest == 1 {
            assert(tail =~= seq![b0]);
            out.push(c0);
            out.push(c1);
            out.push('=');
            out.push('=');
            assert(out@ =~= before + spec_base64(tail));
            i = i + 1;
            assert(data@.subrange(i as int, data@.len() as int) =~= Seq::<u8>::empty());
        } else if rest == 2 {
            assert(tail =~= seq![b0, b1]);
            out.push(c0);
            out.push(c1);
            out.push(c2);
            out.push('=');
            assert(out@ =~= before + spec_base64(tail));
            i = i + 2;
            assert(data@.subrange(i as int, data@.len() as int) =~= Seq::<u8>::empty());
        } else {
            out.push(c0);
            out.push(c1);
            out.push(c2);
            out.push(c3);
            assert(tail.subrange(3, tail.len() as int) =~= data@.subrange(i + 3, data@.len() as int));
            assert(spec_base64(tail) == seq![c0, c1, c2, c3] + spec_base64(tail.subrange(3, tail.len() as int)));
            assert(out@ =~= before + seq![c0, c1, c2, c3]);
            assert(out@ + spec_base64(data@.subrange(i + 3, data@.len() as int)) =~= before
                + spec_base64(tail));
            i = i + 3;
        }
    }
    assert(data@.subrange(i as int, data@.len() as int) =~= Seq::<u8>::empty());
    assert(out@ =~= spec_base64(data@));
    chars_to_string(out.as_slice())
}

} // verus!
