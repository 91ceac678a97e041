//! Where generated session names are kept: one file per session, named by
//! the lowercase hex encoding of the session id's UTF-8 bytes, so that any
//! id (paths, colons, CJK, ...) maps to a safe file name and back.
use vstd::prelude::*;
use vstd::utf8::*;

use crate::text::{chars_of, opt_string_view, push_char, same_text};

verus! {

/// The lowercase hex digit for a value below 16.
pub open spec fn hex_char(n: u8) -> char {
    if n < 10 {
        (n + 48) as char
    } else {
        (n + 87) as char
    }
}

/// Two lowercase hex digits per byte, high nibble first.
pub open spec fn encode_hex(b: Seq<u8>) -> Seq<char> {
    Seq::new(
        2 * b.len(),
        |i: int|
            if i % 2 == 0 {
                hex_char(b[i / 2] / 16)
            } else {
                hex_char(b[i / 2] % 16)
            },
    )
}

/// The file stem that stands for a session id.
pub open spec fn encode_session(id: Seq<char>) -> Seq<char> {
    encode_hex(encode_utf8(id))
}

fn hex_digit(n: u8) -> (c: char)
    requires
        n < 16,
    ensures
        c == hex_char(n),
{
    if n < 10 {
        (n + 48) as char
    } else {
        (n + 87) as char
    }
}

/// Reversibly encode a session id into a filesystem-safe stem using
/// lowercase hex. This preserves every byte of the raw id so
/// `scan_all()` can hand the TUI the exact same string the agent hook
/// stored, even when the raw id contains characters that would
/// otherwise require sanitization (UUIDs with colons, paths, CJK, ...).
pub fn encode_session_id(session_id: &str) -> (r: String)
    ensures
        r@ == encode_session(session_id@),
{
    let bytes = session_id.as_bytes();
    let ghost target = encode_session(session_id@);
    let mut out = String::new();
    let mut i: usize = 0;
    while i < bytes.len()
        invariant
            bytes@ == encode_utf8(session_id@),
            target == encode_hex(bytes@),
            i <= bytes@.len(),
            out@.len() == 2 * i,
            forall|j: int| 0 <= j < 2 * i ==> out@[j] == target[j],
        decreases bytes.len() - i,
    {
        let byte = bytes[i];
        push_char(&mut out, hex_digit(byte / 16));
        push_char(&mut out, hex_digit(byte % 16));
        assert(target[2 * i] == hex_char(bytes@[i as int] / 16));
        assert(target[2 * i + 1] == hex_char(bytes@[i as int] % 16));
        i = i + 1;
    }
    assert(out@ =~= target);
    out
}

/// The value of an ASCII hex digit of either case, as `char::to_digit(16)`
/// gives it for the byte taken as a character.
pub open spec fn hex_value(b: u8) -> Option<u8> {
    if 48 <= b <= 57 {
        Some((b - 48) as u8)
    } else if 97 <= b <= 102 {
        Some((b - 87) as u8)
    } else if 65 <= b <= 70 {
        Some((b - 55) as u8)
    } else {
        None
    }
}

/// The bytes that a string of hex digit pairs spells, high nibble first.
pub open spec fn decode_hex(c: Seq<u8>) -> Option<Seq<u8>> {
    if c.len() % 2 == 0 && forall|i: int| 0 <= i < c.len() ==> (#[trigger] hex_value(c[i])) is Some {
        Some(
            Seq::new(
                c.len() / 2,
                |j: int| (hex_value(c[2 * j])->0 * 16 + hex_value(c[2 * j + 1])->0) as u8,
            ),
        )
    } else {
        None
    }
}

/// The session id that a file stem stands for: its bytes must be a
/// non-empty, even-length run of hex digits that spells valid UTF-8.
pub open spec fn decode_session(stem: Seq<char>) -> Option<Seq<char>> {
    let b = encode_utf8(stem);
    if b.len() == 0 {
        None
    } else {
        match decode_hex(b) {
            Some(raw) => if valid_utf8(raw) {
                Some(decode_utf8(raw))
            } else {
                None
            },
            None => None,
        }
    }
}

fn hex_digit_value(b: u8) -> (r: Option<u8>)
    ensures
        r == hex_value(b),
{
    if 48 <= b && b <= 57 {
        Some(b - 48)
    } else if 97 <= b && b <= 102 {
        Some(b - 87)
    } else if 65 <= b && b <= 70 {
        Some(b - 55)
    } else {
        None
    }
}

/// `String::from_utf8(bytes).ok()`: the string that the bytes encode, or
/// `None` when they are not valid UTF-8.
#[verifier::external_body]
fn string_from_utf8(bytes: Vec<u8>) -> (r: Option<String>)
    ensures
        r is Some <==> valid_utf8(bytes@),
        r matches Some(s) ==> s@ == decode_utf8(bytes@),
{
    String::from_utf8(bytes).ok()
}

/// Inverse of [`encode_session_id`]. Returns `None` when the stem is
/// not valid UTF-8 hex of even length — such files are ignored by
/// `scan_all()` so stray artifacts never poison the name map.
pub fn decode_session_id(stem: &str) -> (r: Option<String>)
    ensures
        opt_string_view(r) == decode_session(stem@),
{
    let src = stem.as_bytes();
    if src.len() == 0 || src.len() % 2 != 0 {
        return None;
    }
    let half = src.len() / 2;
    assert(2 * half == src@.len());
    let mut bytes: Vec<u8> = Vec::new();
    let mut j: usize = 0;
    while j < half
        invariant
            src@ == encode_utf8(stem@),
            src@.len() % 2 == 0,
            2 * half == src@.len(),
            src.len() == src@.len(),
            j <= half,
            bytes@.len() == j,
            forall|k: int| 0 <= k < 2 * j ==> (#[trigger] hex_value(src@[k])) is Some,
            forall|k: int|
                0 <= k < j ==> #[trigger] bytes@[k] == (hex_value(src@[2 * k])->0 * 16 + hex_value(
                    src@[2 * k + 1],
                )->0) as u8,
        decreases half - j,
    {
        assert(2 * j + 1 < src@.len());
        let pos: usize = j + j;
        let hi = match hex_digit_value(src[pos]) {
            Some(v) => v,
            None => return None,
        };
        let lo = match hex_digit_value(src[pos + 1]) {
            Some(v) => v,
            None => return None,
        };
        bytes.push(hi * 16 + lo);
        j = j + 1;
    }
    let ghost raw = bytes@;
    proof {
        assert(src@.len() == 2 * half);
        assert(decode_hex(src@) == Some(raw));
        assert(encode_utf8(stem@).len() > 0);
    }
    string_from_utf8(bytes)
}

proof fn lemma_hex_char(n: u8)
    requires
        n < 16,
    ensures
        '\0' <= hex_char(n) <= '\u{7f}',
        hex_value(hex_char(n) as u8) == Some(n),
        hex_char(n) != '.',
        hex_char(n) != '/',
{
}

proof fn lemma_encode_utf8_nonempty(id: Seq<char>)
    requires
        id.len() > 0,
    ensures
        encode_utf8(id).len() > 0,
{
    assert(encode_scalar(id[0] as u32).len() > 0);
}

/// Every character of an encoded stem is a lowercase hex digit, two per
/// byte of the id's UTF-8 encoding.
pub proof fn lemma_encoding_is_hex(id: Seq<char>)
    ensures
        encode_session(id).len() == 2 * encode_utf8(id).len(),
        forall|i: int|
            0 <= i < encode_session(id).len() ==> {
                let c = #[trigger] encode_session(id)[i];
                ('0' <= c <= '9') || ('a' <= c <= 'f')
            },
{
    let b = encode_utf8(id);
    assert forall|i: int| 0 <= i < encode_session(id).len() implies {
        let c = #[trigger] encode_session(id)[i];
        ('0' <= c <= '9') || ('a' <= c <= 'f')
    } by {
        lemma_hex_char(b[i / 2] / 16);
        lemma_hex_char(b[i / 2] % 16);
    }
}

/// Decoding the stem that encodes a non-empty session id gives the id back.
pub proof fn lemma_decode_encode(id: Seq<char>)
    requires
        id.len() > 0,
    ensures
        decode_session(encode_session(id)) == Some(id),
{
    let b = encode_utf8(id);
    let e = encode_hex(b);
    assert forall|i: int| 0 <= i < e.len() implies '\0' <= #[trigger] e[i] <= '\u{7f}' by {
        lemma_hex_char(b[i / 2] / 16);
        lemma_hex_char(b[i / 2] % 16);
    }
    assert(is_ascii_chars(e));
    is_ascii_chars_encode_utf8(e);
    let eb = encode_utf8(e);
    lemma_encode_utf8_nonempty(id);
    assert forall|i: int| 0 <= i < eb.len() implies (#[trigger] hex_value(eb[i])) is Some by {
        assert(eb[i] == e[i] as u8);
        lemma_hex_char(b[i / 2] / 16);
        lemma_hex_char(b[i / 2] % 16);
    }
    let d = Seq::new(
        eb.len() / 2,
        |j: int| (hex_value(eb[2 * j])->0 * 16 + hex_value(eb[2 * j + 1])->0) as u8,
    );
    assert forall|j: int| 0 <= j < b.len() implies d[j] == b[j] by {
        assert(eb[2 * j] == e[2 * j] as u8);
        assert(eb[2 * j + 1] == e[2 * j + 1] as u8);
        lemma_hex_char(b[j] / 16);
        lemma_hex_char(b[j] % 16);
    }
    assert(d =~= b);
    assert(decode_hex(eb) == Some(b));
    encode_utf8_valid_utf8(id);
    encode_utf8_decode_utf8(id);
}

/// The file that holds the name of a session.
pub open spec fn name_file(id: Seq<char>) -> Seq<char> {
    encode_session(id) + ".txt"@
}

/// The hidden file that a new name is written to before it is renamed
/// into place.
pub open spec fn tmp_file(id: Seq<char>) -> Seq<char> {
    "."@ + encode_session(id) + ".tmp"@
}

/// `Path::join` of a relative file name that does not start with `/`:
/// a separator goes between the two unless `base` is empty or already
/// ends with one.
pub open spec fn join_path(base: Seq<char>, file: Seq<char>) -> Seq<char> {
    if base.len() == 0 || base.last() == '/' {
        base + file
    } else {
        base + seq!['/'] + file
    }
}

/// The session id that a directory entry's file name stands for: the
/// extension must be `txt` and the stem must not start with `.` and must
/// decode.
pub open spec fn session_from_file_name(name: Seq<char>) -> Option<Seq<char>> {
    if name.len() > 4 && name.skip(name.len() - 4) == ".txt"@ && name[0] != '.' {
        decode_session(name.take(name.len() - 4))
    } else {
        None
    }
}

fn join(base: &str, file: &str) -> (r: String)
    ensures
        r@ == join_path(base@, file@),
{
    let v = chars_of(base);
    let mut out = String::from_str(base);
    if v.len() > 0 && v[v.len() - 1] != '/' {
        push_char(&mut out, '/');
    }
    out.append(file);
    proof {
        if !(base@.len() == 0 || base@.last() == '/') {
            assert(out@ =~= base@ + seq!['/'] + file@);
        }
    }
    out
}

/// The path of the file that holds the name of `session_id` under
/// `base_dir`.
pub fn name_path(base_dir: &str, session_id: &str) -> (r: String)
    ensures
        r@ == join_path(base_dir@, name_file(session_id@)),
{
    let mut file = encode_session_id(session_id);
    file.append(".txt");
    join(base_dir, file.as_str())
}

/// The path that [`name_path`]'s content is first written to.
pub fn tmp_path(base_dir: &str, session_id: &str) -> (r: String)
    ensures
        r@ == join_path(base_dir@, tmp_file(session_id@)),
{
    let mut file = String::from_str(".");
    let encoded = encode_session_id(session_id);
    file.append(encoded.as_str());
    file.append(".tmp");
    join(base_dir, file.as_str())
}

/// The raw session id behind a directory entry, or `None` for files that
/// are not name files (other extensions, hidden or temporary files, stems
/// that do not decode).
pub fn decoded_session_id_from_path(file_name: &str) -> (r: Option<String>)
    ensures
        opt_string_view(r) == session_from_file_name(file_name@),
{
    let v = chars_of(file_name);
    let n = v.len();
    if n <= 4 {
        return None;
    }
    let ext = file_name.substring_char(n - 4, n);
    assert(ext@ =~= file_name@.skip(n - 4));
    if !same_text(ext, ".txt") {
        return None;
    }
    if v[0] == '.' {
        return None;
    }
    let stem = file_name.substring_char(0, n - 4);
    assert(stem@ =~= file_name@.take(n - 4));
    decode_session_id(stem)
}

/// A name file written for a non-empty session id is read back, when the
/// directory is scanned, under that same id.
pub proof fn lemma_name_file_decodes(id: Seq<char>)
    requires
        id.len() > 0,
    ensures
        session_from_file_name(name_file(id)) == Some(id),
{
    reveal_strlit(".txt");
    let e = encode_session(id);
    let f = name_file(id);
    lemma_encode_utf8_nonempty(id);
    lemma_encoding_is_hex(id);
    assert(f.skip(f.len() - 4) =~= ".txt"@);
    assert(f.take(f.len() - 4) =~= e);
    assert(f[0] == e[0]);
    lemma_decode_encode(id);
}

/// The temporary file of a write is never taken for a name file.
pub proof fn lemma_tmp_file_ignored(id: Seq<char>)
    ensures
        session_from_file_name(tmp_file(id)) is None,
{
    reveal_strlit(".");
    assert(tmp_file(id)[0] == '.');
}

/// Distinct session ids get distinct stems.
pub proof fn lemma_encoding_injective(a: Seq<char>, b: Seq<char>)
    requires
        encode_session(a) == encode_session(b),
    ensures
        a == b,
{
    if a.len() > 0 && b.len() > 0 {
        lemma_decode_encode(a);
        lemma_decode_encode(b);
    } else if a.len() > 0 {
        lemma_encoding_is_hex(a);
        lemma_encoding_is_hex(b);
        lemma_encode_utf8_nonempty(a);
        assert(encode_utf8(b) =~= Seq::<u8>::empty());
    } else if b.len() > 0 {
        lemma_encoding_is_hex(a);
        lemma_encoding_is_hex(b);
        lemma_encode_utf8_nonempty(b);
        assert(encode_utf8(a) =~= Seq::<u8>::empty());
    } else {
        assert(a =~= b);
    }
}

/// Distinct session ids never share a name file, whatever the base
/// directory: ids that differ only in characters a file name cannot hold
/// (such as `ses/with/slash` and `ses_with_slash`) stay apart.
pub proof fn lemma_distinct_ids_distinct_paths(base: Seq<char>, a: Seq<char>, b: Seq<char>)
    requires
        a != b,
    ensures
        join_path(base, name_file(a)) != join_path(base, name_file(b)),
{
    if join_path(base, name_file(a)) == join_path(base, name_file(b)) {
        let pa = join_path(base, name_file(a));
        let k = if base.len() == 0 || base.last() == '/' {
            base.len()
        } else {
            base.len() + 1
        };
        assert(pa.skip(k as int) =~= name_file(a));
        assert(join_path(base, name_file(b)).skip(k as int) =~= name_file(b));
        let fa = name_file(a);
        let fb = name_file(b);
        assert(fa.take(fa.len() - ".txt"@.len()) =~= encode_session(a));
        assert(fb.take(fb.len() - ".txt"@.len()) =~= encode_session(b));
        lemma_encoding_injective(a, b);
    }
}

/// The name file of any session id, even one such as `../../etc/passwd`,
/// lies directly inside the base directory: the path starts with the base
/// and no `/` follows it apart from the separator that `join` adds.
pub proof fn lemma_name_path_within_base(base: Seq<char>, id: Seq<char>)
    ensures
        base.is_prefix_of(join_path(base, name_file(id))),
        forall|i: int|
            base.len() < i < join_path(base, name_file(id)).len() ==> #[trigger] join_path(
                base,
                name_file(id),
            )[i] != '/',
        join_path(base, name_file(id)).len() > base.len() && (base.len() == 0 ==> join_path(
            base,
            name_file(id),
        )[0] != '/'),
{
    reveal_strlit(".txt");
    lemma_encoding_is_hex(id);
    let p = join_path(base, name_file(id));
    let f = name_file(id);
    let e = encode_session(id);
    assert forall|j: int| 0 <= j < f.len() implies f[j] != '/' by {
        if j < e.len() {
            assert(f[j] == e[j]);
        } else {
            assert(f[j] == ".txt"@[j - e.len()]);
        }
    }
    if base.len() == 0 || base.last() == '/' {
        assert forall|i: int| base.len() <= i < p.len() implies p[i] != '/' by {
            assert(p[i] == f[i - base.len()]);
        }
    } else {
        assert forall|i: int| base.len() < i < p.len() implies p[i] != '/' by {
            assert(p[i] == f[i - base.len() - 1]);
        }
    }
    assert(p.take(base.len() as int) =~= base);
}

} // verus!
