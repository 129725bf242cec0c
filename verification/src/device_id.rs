//! The identifier of this machine, stored once as `device_id`: the
//! platform's hardware id when one can be read, else a hash of the start
//! time and process id. Reading the platform's sources is the caller's
//! part; this module reads their text.

use vstd::prelude::*;
use crate::text::{
    lowercase, seq_contains, trim_seq, str_to_chars, chars_to_string, to_lowercase, chars_contains,
    find_char, rfind_chars, chars_from, chars_take, trim_chars, split_lines, spec_lines, views,
    is_last_occurrence,
};
use crate::decimal::{spec_decimal, u128_decimal_chars};

verus! {

pub open spec fn hex_digit(d: nat) -> char {
    if d < 10 {
        (d + 48) as char
    } else {
        (d + 87) as char
    }
}

/// Lower-case hexadecimal digits of `n`, without leading zeros.
pub open spec fn spec_hex(n: nat) -> Seq<char>
    decreases n,
{
    if n < 16 {
        seq![hex_digit(n)]
    } else {
        spec_hex(n / 16).push(hex_digit(n % 16))
    }
}

/// `s` padded on the left with zeros to at least `width` characters.
pub open spec fn zero_pad(s: Seq<char>, width: nat) -> Seq<char> {
    if s.len() < width {
        Seq::new((width - s.len()) as nat, |i: int| '0') + s
    } else {
        s
    }
}

fn hex_chars(n: u128) -> (v: Vec<char>)
    ensures
        v@ == spec_hex(n as nat),
    decreases n,
{
    let d = (n % 16) as u8;
    let c = if d < 10 {
        (d + 48) as char
    } else {
        (d + 87) as char
    };
    if n < 16 {
        vec![c]
    } else {
        let mut v = hex_chars(n / 16);
        v.push(c);
        v
    }
}

/// `format!("{:x}", n)`: lower-case hexadecimal without leading zeros.
pub fn hex_of(n: u128) -> (v: Vec<char>)
    ensures
        v@ == spec_hex(n as nat),
{
    hex_chars(n)
}

/// `format!("{:012x}", n)`: lower-case hexadecimal, at least 12 digits.
pub fn hex12(n: u64) -> (s: String)
    ensures
        s@ == zero_pad(spec_hex(n as nat), 12),
{
    let h = hex_chars(n as u128);
    let mut v: Vec<char> = Vec::new();
    if h.len() < 12 {
        let pad = 12 - h.len();
        let mut k: usize = 0;
        while k < pad
            invariant
                k <= pad,
                v@ == Seq::new(k as nat, |i: int| '0'),
            decreases pad - k,
        {
            v.push('0');
            assert(v@ =~= Seq::new((k + 1) as nat, |i: int| '0'));
            k = k + 1;
        }
    }
    let mut h2 = h;
    v.append(&mut h2);
    assert(v@ =~= zero_pad(spec_hex(n as nat), 12));
    chars_to_string(v.as_slice())
}

pub open spec fn fnv_step(h: u64, b: u8) -> u64 {
    ((h ^ (b as u64)) as int * 0x100000001b3int % 0x1_0000_0000_0000_0000int) as u64
}

/// The 64-bit FNV-1a hash of `bytes`.
pub open spec fn fnv1a(bytes: Seq<u8>) -> u64
    decreases bytes.len(),
{
    if bytes.len() == 0 {
        0xcbf29ce484222325u64
    } else {
        fnv_step(fnv1a(bytes.drop_last()), bytes.last())
    }
}

/// The bytes of a text of ASCII characters.
pub open spec fn ascii_bytes(s: Seq<char>) -> Seq<u8> {
    s.map_values(|c: char| c as u8)
}

/// A generated identifier: the FNV-1a hash of the start time in
/// nanoseconds followed by the process id, both in decimal, as at least 12
/// hexadecimal digits.
pub open spec fn spec_generated_id(nanos: u128, pid: u32) -> Seq<char> {
    zero_pad(
        spec_hex(fnv1a(ascii_bytes(spec_decimal(nanos as nat) + spec_decimal(pid as nat))) as nat),
        12,
    )
}

/// Builds a generated identifier (see [`spec_generated_id`]).
pub fn gen_device_id(nanos: u128, pid: u32) -> (s: String)
    ensures
        s@ == spec_generated_id(nanos, pid),
{
    let mut raw = u128_decimal_chars(nanos);
    let mut p = u128_decimal_chars(pid as u128);
    raw.append(&mut p);
    let ghost bytes = ascii_bytes(raw@);
    let mut h: u64 = 0xcbf29ce484222325;
    let mut k: usize = 0;
    while k < raw.len()
        invariant
            k <= raw@.len(),
            bytes == ascii_bytes(raw@),
            h == fnv1a(bytes.subrange(0, k as int)),
        decreases raw.len() - k,
    {
        assert(bytes.subrange(0, k + 1).drop_last() =~= bytes.subrange(0, k as int));
        let b = raw[k] as u8;
        h = (h ^ (b as u64)).wrapping_mul(0x100000001b3);
        k = k + 1;
    }
    assert(bytes.subrange(0, raw@.len() as int) =~= bytes);
    hex12(h)
}

/// `"hw-"` followed by `id`.
pub open spec fn hw_id(id: Seq<char>) -> Seq<char> {
    "hw-"@ + id
}

fn make_hw_id(id: &Vec<char>) -> (s: String)
    ensures
        s@ == hw_id(id@),
{
    let mut v = str_to_chars("hw-");
    let mut rest = id.clone();
    v.append(&mut rest);
    chars_to_string(v.as_slice())
}

/// The identifier on one line of `ioreg -rd1 -c IOPlatformExpertDevice`
/// output, such as `"IOPlatformUUID" = "ABCD-1234"`: on a line that
/// mentions `IOPlatformUUID`, the trimmed text between the first two
/// double quotes after the first `=` (the value, not the key), when it is
/// not empty.
pub open spec fn ioreg_line_uuid(line: Seq<char>) -> Option<Seq<char>> {
    if !seq_contains(line, "IOPlatformUUID"@) {
        None
    } else {
        match line.index_of_first('=') {
            None => None,
            Some(eq) => {
                let after = line.subrange(eq + 1, line.len() as int);
                match after.index_of_first('"') {
                    None => None,
                    Some(start) => {
                        let rest = after.subrange(start + 1, after.len() as int);
                        match rest.index_of_first('"') {
                            None => None,
                            Some(end) => {
                                let u = trim_seq(rest.subrange(0, end));
                                if u.len() > 0 {
                                    Some(u)
                                } else {
                                    None
                                }
                            },
                        }
                    },
                }
            },
        }
    }
}

/// The identifier on one line of `reg query ...\Cryptography /v MachineGuid`
/// output: on a line that mentions `MachineGuid`, the trimmed text after
/// the last `REG_SZ`, when it is not empty.
pub open spec fn reg_line_guid(line: Seq<char>) -> Option<Seq<char>> {
    if !seq_contains(line, "MachineGuid"@) {
        None
    } else if exists|i: int| occurs_at_last(line, i) {
        let i = choose|i: int| occurs_at_last(line, i);
        let g = trim_seq(line.subrange(i + 6, line.len() as int));
        if g.len() > 0 {
            Some(g)
        } else {
            None
        }
    } else {
        None
    }
}

pub open spec fn occurs_at_last(line: Seq<char>, i: int) -> bool {
    is_last_occurrence(line, "REG_SZ"@, i)
}

/// The id found on the first line that yields one, read by `f`.
pub open spec fn first_found(lines: Seq<Seq<char>>, f: spec_fn(Seq<char>) -> Option<Seq<char>>) -> Option<
    Seq<char>,
>
    decreases lines.len(),
{
    if lines.len() == 0 {
        None
    } else {
        match f(lines[0]) {
            Some(u) => Some(u),
            None => first_found(lines.drop_first(), f),
        }
    }
}

proof fn lemma_first_found_step(lines: Seq<Seq<char>>, k: int, f: spec_fn(Seq<char>) -> Option<Seq<char>>)
    requires
        0 <= k < lines.len(),
        f(lines[k]) is None,
    ensures
        first_found(lines.subrange(k, lines.len() as int), f) == first_found(
            lines.subrange(k + 1, lines.len() as int),
            f,
        ),
{
    assert(lines.subrange(k, lines.len() as int).drop_first() =~= lines.subrange(
        k + 1,
        lines.len() as int,
    ));
}

fn ioreg_uuid_of_line(line: &Vec<char>) -> (r: Option<Vec<char>>)
    ensures
        match r {
            Some(u) => ioreg_line_uuid(line@) == Some(u@),
            None => ioreg_line_uuid(line@) is None,
        },
{
    let key = str_to_chars("IOPlatformUUID");
    if !chars_contains(line, &key) {
        return None;
    }
    let eq = match find_char(line, '=') {
        Some(e) => e,
        None => return None,
    };
    proof {
        line@.index_of_first_ensures('=');
    }
    assert(eq < line.len());
    let after = chars_from(line, eq + 1);
    let start = match find_char(&after, '"') {
        Some(s) => s,
        None => return None,
    };
    proof {
        after@.index_of_first_ensures('"');
    }
    assert(start < after.len());
    let rest = chars_from(&after, start + 1);
    let end = match find_char(&rest, '"') {
        Some(e) => e,
        None => return None,
    };
    proof {
        rest@.index_of_first_ensures('"');
    }
    let u = trim_chars(&chars_take(&rest, end));
    if u.len() > 0 {
        Some(u)
    } else {
        None
    }
}

fn reg_guid_of_line(line: &Vec<char>) -> (r: Option<Vec<char>>)
    ensures
        match r {
            Some(u) => reg_line_guid(line@) == Some(u@),
            None => reg_line_guid(line@) is None,
        },
{
    let key = str_to_chars("MachineGuid");
    if !chars_contains(line, &key) {
        return None;
    }
    let tag = str_to_chars("REG_SZ");
    proof {
        reveal_strlit("REG_SZ");
    }
    let start = match rfind_chars(line, &tag) {
        Some(s) => s,
        None => {
            assert(!exists|i: int| occurs_at_last(line@, i));
            return None;
        },
    };
    assert(tag@.len() == 6);
    proof {
        assert(occurs_at_last(line@, start as int));
        let i = choose|i: int| occurs_at_last(line@, i);
        if i != start {
            assert(i > start || start > i);
        }
    }
    assert(start + 6 <= line.len());
    let g = trim_chars(&chars_from(line, start + 6));
    if g.len() > 0 {
        Some(g)
    } else {
        None
    }
}

/// The hardware id in `ioreg` output: `hw-` and the lower-cased UUID of
/// the first line that carries one.
pub fn mac_uuid_from_ioreg(text: &str) -> (r: Option<String>)
    ensures
        match first_found(spec_lines(text@), |l: Seq<char>| ioreg_line_uuid(l)) {
            Some(u) => r is Some && r->0@ == hw_id(lowercase(u)),
            None => r is None,
        },
{
    let lines = split_lines(&str_to_chars(text));
    let ghost ls = views(lines@);
    let ghost f = |l: Seq<char>| ioreg_line_uuid(l);
    let mut k: usize = 0;
    assert(ls.subrange(0, ls.len() as int) =~= ls);
    while k < lines.len()
        invariant
            k <= lines@.len(),
            ls == views(lines@),
            ls == spec_lines(text@),
            f == (|l: Seq<char>| ioreg_line_uuid(l)),
            first_found(ls.subrange(k as int, ls.len() as int), f) == first_found(ls, f),
        decreases lines.len() - k,
    {
        match ioreg_uuid_of_line(&lines[k]) {
            Some(u) => {
                assert(ls.subrange(k as int, ls.len() as int)[0] == ls[k as int]);
                let low = str_to_chars(to_lowercase(chars_to_string(u.as_slice()).as_str()).as_str());
                return Some(make_hw_id(&low));
            },
            None => {
                proof {
                    lemma_first_found_step(ls, k as int, f);
                }
            },
        }
        k = k + 1;
    }
    None
}

/// The hardware id in `reg query` output: `hw-` and the lower-cased GUID
/// of the first line that carries one.
pub fn windows_guid_from_reg(text: &str) -> (r: Option<String>)
    ensures
        match first_found(spec_lines(text@), |l: Seq<char>| reg_line_guid(l)) {
            Some(u) => r is Some && r->0@ == hw_id(lowercase(u)),
            None => r is None,
        },
{
    let lines = split_lines(&str_to_chars(text));
    let ghost ls = views(lines@);
    let ghost f = |l: Seq<char>| reg_line_guid(l);
    let mut k: usize = 0;
    assert(ls.subrange(0, ls.len() as int) =~= ls);
    while k < lines.len()
        invariant
            k <= lines@.len(),
            ls == views(lines@),
            ls == spec_lines(text@),
            f == (|l: Seq<char>| reg_line_guid(l)),
            first_found(ls.subrange(k as int, ls.len() as int), f) == first_found(ls, f),
        decreases lines.len() - k,
    {
        match reg_guid_of_line(&lines[k]) {
            Some(u) => {
                assert(ls.subrange(k as int, ls.len() as int)[0] == ls[k as int]);
                let low = str_to_chars(to_lowercase(chars_to_string(u.as_slice()).as_str()).as_str());
                return Some(make_hw_id(&low));
            },
            None => {
                proof {
                    lemma_first_found_step(ls, k as int, f);
                }
            },
        }
        k = k + 1;
    }
    None
}

/// The hardware id in the text of `/etc/machine-id`: `hw-` and the trimmed
/// text, when it is not empty.
pub fn linux_machine_id_from(content: &str) -> (r: Option<String>)
    ensures
        match r {
            Some(s) => trim_seq(content@).len() > 0 && s@ == hw_id(trim_seq(content@)),
            None => trim_seq(content@).len() == 0,
        },
{
    let id = trim_chars(&str_to_chars(content));
    if id.len() > 0 {
        Some(make_hw_id(&id))
    } else {
        None
    }
}

} // verus!
