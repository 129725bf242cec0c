//! The image data that travels between the capture overlay and the
//! library: PNG bytes as Base64 text, plain or as a `data:` URL.

use crate::export_format::spec_base64;
use crate::text::{chars_from, chars_to_string, str_to_chars, trim_chars, trim_seq};
use base64::Engine;
use vstd::prelude::*;

verus! {

/// What `base64::engine::general_purpose::STANDARD.decode` says, as text,
/// of input that it refuses.
pub uninterp spec fn base64_refusal(text: Seq<char>) -> Seq<char>;

/// `base64::engine::general_purpose::STANDARD.decode`. That engine requires
/// canonical `=` padding and refuses trailing bits, so it accepts exactly
/// the standard encodings of byte strings and gives back the bytes that
/// were encoded; a refusal is the text of the crate's `DecodeError`, named
/// by [`base64_refusal`].
#[verifier::external_body]
fn base64_decode(text: &str) -> (r: Result<Vec<u8>, String>)
    ensures
        r matches Ok(v) ==> spec_base64(v@) == text@,
        (exists|v: Seq<u8>| spec_base64(v) == text@) ==> r is Ok,
        r matches Err(e) ==> e@ == base64_refusal(text@),
{
    match base64::engine::general_purpose::STANDARD.decode(text) {
        Ok(v) => Ok(v),
        Err(e) => Err(e.to_string()),
    }
}

/// `base64::engine::general_purpose::STANDARD.encode`: the standard
/// encoding, with the RFC 4648 alphabet and `=` padding.
#[verifier::external_body]
fn base64_encode(data: &[u8]) -> (r: String)
    ensures
        r@ == spec_base64(data@),
{
    base64::engine::general_purpose::STANDARD.encode(data)
}

/// The text after the last `,` of `s`, or all of `s` when it holds none:
/// the first item that `str::rsplit(',')` yields.
pub open spec fn after_last_comma(s: Seq<char>) -> Seq<char>
    decreases s.len(),
{
    if s.len() == 0 {
        s
    } else if s.last() == ',' {
        Seq::empty()
    } else {
        after_last_comma(s.drop_last()).push(s.last())
    }
}

/// The Base64 text inside what the overlay sends: a `data:` URL prefix
/// (anything up to the last comma) and surrounding whitespace dropped.
pub open spec fn payload_text(s: Seq<char>) -> Seq<char> {
    trim_seq(after_last_comma(s))
}

pub open spec fn no_image_message() -> Seq<char> {
    "没有要导出的图片"@
}

pub open spec fn undecodable_message(text: Seq<char>) -> Seq<char> {
    "截图数据解码失败: "@ + base64_refusal(text)
}

/// The prefix `data:image/png;base64,` of a PNG data URL.
pub open spec fn png_url_prefix() -> Seq<char> {
    "data:image/png;base64,"@
}

proof fn lemma_base64_empty(v: Seq<u8>)
    ensures
        (spec_base64(v).len() == 0) == (v.len() == 0),
{
}

fn after_last_comma_chars(v: &Vec<char>) -> (r: Vec<char>)
    ensures
        r@ == after_last_comma(v@),
{
    let n = v.len();
    let mut i = n;
    assert(v@.subrange(0, n as int) =~= v@);
    assert(v@.subrange(n as int, n as int) =~= Seq::<char>::empty());
    while i > 0 && v[i - 1] != ','
        invariant
            i <= n == v@.len(),
            after_last_comma(v@) == after_last_comma(v@.subrange(0, i as int)) + v@.subrange(
                i as int,
                n as int,
            ),
        decreases i,
    {
        let ghost pre = v@.subrange(0, i as int);
        assert(pre.drop_last() =~= v@.subrange(0, i - 1));
        assert(v@.subrange(i - 1, n as int) =~= seq![v@[i - 1]] + v@.subrange(i as int, n as int));
        i = i - 1;
    }
    chars_from(v, i)
}

/// The PNG bytes of what the capture overlay sends back: Base64 text,
/// possibly as a `data:` URL. Fails with the decoder's complaint on text
/// that is not standard Base64, and when there are no bytes at all.
pub fn decode_png_payload(png_base64: &str) -> (r: Result<Vec<u8>, String>)
    ensures
        r matches Ok(v) ==> spec_base64(v@) == payload_text(png_base64@) && v@.len() > 0,
        (exists|v: Seq<u8>| spec_base64(v) == payload_text(png_base64@) && v.len() > 0) ==> r is Ok,
        payload_text(png_base64@).len() == 0 ==> (r matches Err(e) && e@ == no_image_message()),
        !(exists|v: Seq<u8>| spec_base64(v) == payload_text(png_base64@)) ==> (r matches Err(e)
            && e@ == undecodable_message(payload_text(png_base64@))),
{
    let all = str_to_chars(png_base64);
    let tail = after_last_comma_chars(&all);
    let text = trim_chars(&tail);
    let s = chars_to_string(text.as_slice());
    match base64_decode(s.as_str()) {
        Ok(bytes) => {
            proof {
                lemma_base64_empty(bytes@);
            }
            if bytes.len() == 0 {
                Err("没有要导出的图片".to_owned())
            } else {
                Ok(bytes)
            }
        },
        Err(e) => {
            proof {
                if payload_text(png_base64@).len() == 0 {
                    assert(spec_base64(Seq::<u8>::empty()) == payload_text(png_base64@));
                }
            }
            let mut m = str_to_chars("截图数据解码失败: ");
            let mut d = str_to_chars(e.as_str());
            m.append(&mut d);
            Err(chars_to_string(m.as_slice()))
        },
    }
}

/// A PNG as a `data:image/png;base64,` URL, as the overlay displays it.
pub fn png_data_url(png: &[u8]) -> (r: String)
    ensures
        r@ == png_url_prefix() + spec_base64(png@),
{
    let mut v = str_to_chars("data:image/png;base64,");
    let e = base64_encode(png);
    let mut d = str_to_chars(e.as_str());
    v.append(&mut d);
    chars_to_string(v.as_slice())
}

} // verus!
