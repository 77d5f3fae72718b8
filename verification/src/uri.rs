//! `file://` URIs: the locator a track is played from, built from the bytes
//! of its filesystem path, and read back into those bytes.

use crate::text::push_char;
use vstd::prelude::*;
use vstd::string::StringSliceAdditionalSpecFns;
use vstd::utf8::encode_utf8;

verus! {

/// Bytes that stand for themselves in a file URI: ASCII letters and digits,
/// `/`, `-`, `_`, `.` and `~`.
pub open spec fn is_unreserved(b: u8) -> bool {
    ||| 48 <= b <= 57
    ||| 65 <= b <= 90
    ||| 97 <= b <= 122
    ||| b == 47
    ||| b == 45
    ||| b == 95
    ||| b == 46
    ||| b == 126
}

/// The uppercase hexadecimal digit of `d < 16`, as an ASCII byte.
pub open spec fn hex_digit_byte(d: u8) -> u8 {
    if d < 10 {
        (48 + d) as u8
    } else {
        (55 + d) as u8
    }
}

/// How one path byte is written in a URI: itself when unreserved, else `%`
/// and two uppercase hexadecimal digits.
pub open spec fn escaped_byte(b: u8) -> Seq<u8> {
    if is_unreserved(b) {
        seq![b]
    } else {
        seq![37u8, hex_digit_byte(b / 16), hex_digit_byte(b % 16)]
    }
}

/// How a path's bytes are written in a URI, byte by byte.
pub open spec fn escaped_path(path: Seq<u8>) -> Seq<u8>
    decreases path.len(),
{
    if path.len() == 0 {
        seq![]
    } else {
        escaped_path(path.drop_last()) + escaped_byte(path.last())
    }
}

/// The bytes of `file://`.
pub open spec fn file_scheme() -> Seq<u8> {
    seq![102u8, 105u8, 108u8, 101u8, 58u8, 47u8, 47u8]
}

/// The file URI of a path, as bytes.
pub open spec fn file_uri_bytes(path: Seq<u8>) -> Seq<u8> {
    file_scheme() + escaped_path(path)
}

/// The characters of ASCII bytes.
pub open spec fn ascii_text(bytes: Seq<u8>) -> Seq<char> {
    bytes.map_values(|b: u8| b as char)
}

/// The value of a hexadecimal digit byte, in either case.
pub open spec fn hex_value(b: u8) -> Option<u8> {
    if 48 <= b <= 57 {
        Some((b - 48) as u8)
    } else if 65 <= b <= 70 {
        Some((b - 55) as u8)
    } else if 97 <= b <= 102 {
        Some((b - 87) as u8)
    } else {
        None
    }
}

/// `prefix` put in front of a decoded remainder, if there is one.
pub open spec fn prefixed(prefix: Seq<u8>, rest: Option<Seq<u8>>) -> Option<Seq<u8>> {
    match rest {
        Some(r) => Some(prefix + r),
        None => None,
    }
}

/// Percent-decoding: `%` and two hexadecimal digits stand for one byte, any
/// other byte for itself; a `%` without two digits after it makes the text
/// unreadable.
pub open spec fn unescaped(s: Seq<u8>) -> Option<Seq<u8>>
    decreases s.len(),
{
    if s.len() == 0 {
        Some(seq![])
    } else if s[0] == 37 {
        if s.len() >= 3 && hex_value(s[1]) is Some && hex_value(s[2]) is Some {
            prefixed(
                seq![(hex_value(s[1])->0 * 16 + hex_value(s[2])->0) as u8],
                unescaped(s.skip(3)),
            )
        } else {
            None
        }
    } else {
        prefixed(seq![s[0]], unescaped(s.skip(1)))
    }
}

/// The path a URI locates: a `file://` URI whose path is absolute (no host)
/// and decodes.
pub open spec fn path_of_file_uri(uri: Seq<u8>) -> Option<Seq<u8>> {
    if uri.len() > 7 && uri.take(7) == file_scheme() && uri[7] == 47 {
        unescaped(uri.skip(7))
    } else {
        None
    }
}

fn hex_digit(d: u8) -> (c: char)
    requires
        d < 16,
    ensures
        c == hex_digit_byte(d) as char,
{
    if d < 10 {
        (48u8 + d) as char
    } else {
        (55u8 + d) as char
    }
}

/// Writing a path's bytes in pieces writes the pieces one after the other.
proof fn lemma_escaped_concat(a: Seq<u8>, b: Seq<u8>)
    ensures
        escaped_path(a + b) == escaped_path(a) + escaped_path(b),
    decreases b.len(),
{
    if b.len() == 0 {
        assert(a + b =~= a);
        assert(escaped_path(a) + escaped_path(b) =~= escaped_path(a));
    } else {
        assert((a + b).drop_last() =~= a + b.drop_last());
        lemma_escaped_concat(a, b.drop_last());
        assert(escaped_path(a + b) =~= escaped_path(a) + escaped_path(b));
    }
}

/// The file URI of a path, built from its bytes.
pub fn path_to_file_uri(path: &[u8]) -> (uri: String)
    ensures
        uri@ == ascii_text(file_uri_bytes(path@)),
        encode_utf8(uri@) == file_uri_bytes(path@),
{
    let mut uri = String::new();
    push_char(&mut uri, 'f');
    push_char(&mut uri, 'i');
    push_char(&mut uri, 'l');
    push_char(&mut uri, 'e');
    push_char(&mut uri, ':');
    push_char(&mut uri, '/');
    push_char(&mut uri, '/');
    assert(uri@ =~= ascii_text(file_uri_bytes(path@.take(0))));
    let mut i: usize = 0;
    while i < path.len()
        invariant
            i <= path@.len(),
            uri@ =~= ascii_text(file_uri_bytes(path@.take(i as int))),
        decreases path@.len() - i,
    {
        let b = path[i];
        let ghost before = uri@;
        if (48 <= b && b <= 57) || (65 <= b && b <= 90) || (97 <= b && b <= 122) || b == 47
            || b == 45 || b == 95 || b == 46 || b == 126 {
            push_char(&mut uri, b as char);
        } else {
            push_char(&mut uri, '%');
            push_char(&mut uri, hex_digit(b / 16));
            push_char(&mut uri, hex_digit(b % 16));
        }
        assert(path@.take(i + 1).drop_last() =~= path@.take(i as int));
        assert(ascii_text(file_uri_bytes(path@.take(i + 1))) =~= before + ascii_text(
            escaped_byte(b),
        ));
        i = i + 1;
    }
    assert(path@.take(path@.len() as int) =~= path@);
    proof {
        lemma_escaped_ascii(path@);
        lemma_ascii_bytes(file_uri_bytes(path@));
    }
    uri
}

/// A URI is written in ASCII.
proof fn lemma_escaped_ascii(path: Seq<u8>)
    ensures
        forall|i: int| 0 <= i < file_uri_bytes(path).len() ==> #[trigger] file_uri_bytes(path)[i] < 128,
    decreases path.len(),
{
    if path.len() > 0 {
        lemma_escaped_ascii(path.drop_last());
        let b = path.last();
        assert(forall|i: int| 0 <= i < escaped_byte(b).len() ==> #[trigger] escaped_byte(b)[i] < 128);
        assert(file_uri_bytes(path) =~= file_uri_bytes(path.drop_last()) + escaped_byte(b));
    }
}

/// ASCII bytes read as characters and written back give the same bytes.
proof fn lemma_ascii_bytes(bytes: Seq<u8>)
    requires
        forall|i: int| 0 <= i < bytes.len() ==> #[trigger] bytes[i] < 128,
    ensures
        encode_utf8(ascii_text(bytes)) == bytes,
{
    let text = ascii_text(bytes);
    assert(vstd::utf8::is_ascii_chars(text));
    vstd::utf8::is_ascii_chars_encode_utf8(text);
    assert(encode_utf8(text) =~= bytes);
}

fn hex_value_of(b: u8) -> (v: Option<u8>)
    ensures
        v == hex_value(b),
{
    if 48 <= b && b <= 57 {
        Some(b - 48)
    } else if 65 <= b && b <= 70 {
        Some(b - 55)
    } else if 97 <= b && b <= 102 {
        Some(b - 87)
    } else {
        None
    }
}

/// The bytes of the path a `file://` URI locates, or `None` when the text is
/// no local file URI: another scheme, a host before the path, or a `%` not
/// followed by two hexadecimal digits.
pub fn file_uri_to_path(uri: &str) -> (path: Option<Vec<u8>>)
    ensures
        match path {
            Some(p) => path_of_file_uri(uri.spec_bytes()) == Some(p@),
            None => path_of_file_uri(uri.spec_bytes()) is None,
        },
{
    let bytes = uri.as_bytes();
    let ghost b = bytes@;
    if !(bytes.len() > 7 && bytes[0] == 102 && bytes[1] == 105 && bytes[2] == 108 && bytes[3] == 101
        && bytes[4] == 58 && bytes[5] == 47 && bytes[6] == 47 && bytes[7] == 47) {
        proof {
            if b.len() > 7 && b.take(7) == file_scheme() {
                assert(b.take(7)[0] == b[0]);
                assert(b.take(7)[1] == b[1]);
                assert(b.take(7)[2] == b[2]);
                assert(b.take(7)[3] == b[3]);
                assert(b.take(7)[4] == b[4]);
                assert(b.take(7)[5] == b[5]);
                assert(b.take(7)[6] == b[6]);
            }
        }
        return None;
    }
    assert(b.take(7) =~= file_scheme());
    let mut path: Vec<u8> = Vec::new();
    let mut i: usize = 7;
    while i < bytes.len()
        invariant
            bytes@ == b,
            b == uri.spec_bytes(),
            b.take(7) == file_scheme(),
            b[7] == 47,
            7 <= i <= b.len(),
            unescaped(b.skip(7)) == prefixed(path@, unescaped(b.skip(i as int))),
        decreases b.len() - i,
    {
        let ghost rest = b.skip(i as int);
        assert(rest[0] == b[i as int]);
        if bytes[i] == 37 {
            if bytes.len() - i < 3 {
                assert(unescaped(rest) is None);
                return None;
            }
            assert(rest[1] == b[i + 1]);
            assert(rest[2] == b[i + 2]);
            let high = hex_value_of(bytes[i + 1]);
            let low = hex_value_of(bytes[i + 2]);
            match (high, low) {
                (Some(h), Some(l)) => {
                    assert(rest.skip(3) =~= b.skip(i + 3));
                    let ghost before = path@;
                    path.push(h * 16 + l);
                    assert(before + (seq![(h * 16 + l) as u8] + unescaped(b.skip(i + 3))->0)
                        =~= path@ + unescaped(b.skip(i + 3))->0);
                    i = i + 3;
                },
                _ => {
                    assert(unescaped(rest) is None);
                    return None;
                },
            }
        } else {
            assert(rest.skip(1) =~= b.skip(i + 1));
            let ghost before = path@;
            path.push(bytes[i]);
            assert(before + (seq![b[i as int]] + unescaped(b.skip(i + 1))->0) =~= path@ + unescaped(
                b.skip(i + 1),
            )->0);
            i = i + 1;
        }
    }
    assert(b.skip(i as int) =~= Seq::<u8>::empty());
    assert(path@ + Seq::<u8>::empty() =~= path@);
    Some(path)
}

/// A command-line argument names a path: a `file://` URI (as a desktop
/// launcher passes) is decoded; any other text is the path itself.
pub fn argument_to_path(argument: &str) -> (path: Vec<u8>)
    ensures
        path@ == (match path_of_file_uri(argument.spec_bytes()) {
            Some(p) => p,
            None => argument.spec_bytes(),
        }),
{
    match file_uri_to_path(argument) {
        Some(path) => path,
        None => argument.as_bytes_vec(),
    }
}

/// Reading one written byte back gives the byte and leaves what follows.
proof fn lemma_unescape_byte(c: u8, rest: Seq<u8>)
    ensures
        unescaped(escaped_byte(c) + rest) == prefixed(seq![c], unescaped(rest)),
{
    let s = escaped_byte(c) + rest;
    if is_unreserved(c) {
        assert(s.skip(1) =~= rest);
    } else {
        assert(s.skip(3) =~= rest);
        assert(hex_value(hex_digit_byte(c / 16)) == Some(c / 16));
        assert(hex_value(hex_digit_byte(c % 16)) == Some(c % 16));
        assert((c / 16) * 16 + c % 16 == c);
    }
    match unescaped(rest) {
        Some(t) => {
            assert(seq![c] + t =~= seq![c] + t);
        },
        None => {},
    }
}

/// Reading back a written path gives the path and leaves what follows.
proof fn lemma_unescape_path(path: Seq<u8>, rest: Seq<u8>)
    ensures
        unescaped(escaped_path(path) + rest) == prefixed(path, unescaped(rest)),
    decreases path.len(),
{
    if path.len() == 0 {
        assert(escaped_path(path) + rest =~= rest);
        match unescaped(rest) {
            Some(t) => assert(path + t =~= t),
            None => {},
        }
    } else {
        let q = path.drop_last();
        let c = path.last();
        assert(escaped_path(path) + rest =~= escaped_path(q) + (escaped_byte(c) + rest));
        lemma_unescape_path(q, escaped_byte(c) + rest);
        lemma_unescape_byte(c, rest);
        match unescaped(rest) {
            Some(t) => assert(q + (seq![c] + t) =~= path + t),
            None => {},
        }
    }
}

/// A path's file URI locates the path again: for every absolute path,
/// reading its URI back gives its bytes unchanged.
pub proof fn a_file_uri_locates_its_path(path: Seq<u8>)
    requires
        path.len() > 0,
        path[0] == 47,
    ensures
        path_of_file_uri(file_uri_bytes(path)) == Some(path),
{
    let uri = file_uri_bytes(path);
    assert(path =~= seq![path[0]] + path.skip(1));
    lemma_escaped_concat(seq![path[0]], path.skip(1));
    let first = seq![path[0]];
    assert(first.drop_last() =~= Seq::<u8>::empty());
    assert(escaped_path(first.drop_last()) =~= Seq::<u8>::empty());
    assert(first.last() == 47);
    assert(escaped_byte(47) =~= seq![47u8]);
    assert(escaped_path(first) =~= seq![47u8]);
    assert(uri.take(7) =~= file_scheme());
    assert(uri[7] == 47);
    assert(uri.skip(7) =~= escaped_path(path) + Seq::<u8>::empty());
    lemma_unescape_path(path, Seq::<u8>::empty());
    assert(path + Seq::<u8>::empty() =~= path);
}

} // verus!
