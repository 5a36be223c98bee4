use vstd::prelude::*;
use vstd::utf8::{decode_utf8, encode_utf8, valid_utf8};

use crate::error::{invalid_argument, TwirpErrorCode, TwirpErrorResponse, CLOSE_BRACE};
use crate::json::{quoted, read_quoted, unescape_from, write_quoted, QUOTE};
use crate::text::{append_bytes, lit_at, starts_at, str_eq, string_from_utf8};

verus! {

/// The wire encoding of a request and of its successful response.
#[derive(Clone, Copy, Debug, PartialEq, Eq, Structural)]
pub enum ContentType {
    /// Protocol buffers.
    Binary,
    /// JSON.
    Structured,
}

/// The encoding that a content-type header selects: binary for
/// `application/protobuf`, structured for anything else and for no header.
pub open spec fn content_type_of(header: Option<Seq<char>>) -> ContentType {
    match header {
        Some(h) => if h == "application/protobuf"@ {
            ContentType::Binary
        } else {
            ContentType::Structured
        },
        None => ContentType::Structured,
    }
}

/// Resolves the encoding of a request from its content-type header.
pub fn detect(header: Option<&str>) -> (r: ContentType)
    ensures
        r == content_type_of(
            match header {
                Some(h) => Some(h@),
                None => None,
            },
        ),
{
    match header {
        Some(h) => if str_eq(h, "application/protobuf") {
            ContentType::Binary
        } else {
            ContentType::Structured
        },
        None => ContentType::Structured,
    }
}

/// The content-type header that names an encoding.
pub fn content_type_header(ct: ContentType) -> (r: &'static str)
    ensures
        ct == ContentType::Binary ==> r@ == "application/protobuf"@,
        ct == ContentType::Structured ==> r@ == "application/json"@,
{
    match ct {
        ContentType::Binary => "application/protobuf",
        ContentType::Structured => "application/json",
    }
}

/// The base-128 encoding of an unsigned integer, low groups first.
pub open spec fn varint(n: nat) -> Seq<u8>
    decreases n,
{
    if n < 128 {
        seq![n as u8]
    } else {
        seq![(n % 128 + 128) as u8] + varint(n / 128)
    }
}

/// Relies on `prost::encoding::encode_varint`: it appends the base-128 encoding of the
/// value.
#[verifier::external_body]
fn put_varint(v: u64, buf: &mut Vec<u8>)
    ensures
        final(buf)@ == old(buf)@ + varint(v as nat),
{
    prost::encoding::encode_varint(v, buf)
}

/// What `prost::encoding::decode_varint` reads from the front of a byte sequence: the
/// value and the number of bytes left after it.
pub uninterp spec fn varint_read(b: Seq<u8>) -> Option<(u64, nat)>;

/// Relies on `prost::encoding::decode_varint`: the result depends on the bytes alone, a
/// value read uses up at least one byte, and where the bytes begin with the base-128
/// encoding of a value it reads that value.
#[verifier::external_body]
fn take_varint(b: &[u8], start: usize) -> (r: Option<(u64, usize)>)
    requires
        start <= b@.len(),
    ensures
        match varint_read(b@.subrange(start as int, b@.len() as int)) {
            Some((v, n)) => r == Some((v, n as usize)) && n < b@.len() - start,
            None => r is None,
        },
        forall|v: u64, rest: Seq<u8>|
            b@.subrange(start as int, b@.len() as int) == varint(v as nat) + rest ==> r == Some(
                (v, rest.len() as usize),
            ),
{
    let mut rest: &[u8] = &b[start..];
    let v = prost::encoding::decode_varint(&mut rest).ok()?;
    Some((v, rest.len()))
}

/// Two encodings that both stand at one position are the encodings of one value.
proof fn lemma_varint_prefix_free(s: Seq<u8>, i: int, a: nat, b: nat)
    requires
        lit_at(s, i, varint(a)),
        lit_at(s, i, varint(b)),
    ensures
        a == b,
    decreases a,
{
    assert(s[i] == s.subrange(i, i + varint(a).len())[0]);
    assert(s[i] == s.subrange(i, i + varint(b).len())[0]);
    if a >= 128 && b >= 128 {
        let ta = varint(a / 128);
        let tb = varint(b / 128);
        assert(s.subrange(i + 1, i + 1 + ta.len() as int) =~= s.subrange(i, i + varint(a).len()).subrange(1, 1 + ta.len() as int));
        assert(s.subrange(i + 1, i + 1 + tb.len() as int) =~= s.subrange(i, i + varint(b).len()).subrange(1, 1 + tb.len() as int));
        assert(varint(a).subrange(1, 1 + ta.len() as int) =~= ta);
        assert(varint(b).subrange(1, 1 + tb.len() as int) =~= tb);
        lemma_varint_prefix_free(s, i + 1, a / 128, b / 128);
    }
}

/// The tag byte of the `name` field (field 2, length-delimited).
pub const NAME_KEY: u8 = 0x12;

/// The `name` field of a binary message holding the bytes `nb`.
pub open spec fn name_field(nb: Seq<u8>) -> Seq<u8> {
    seq![NAME_KEY] + varint(nb.len()) + nb
}

/// The binary message for a name: empty for the empty name, which is the default.
pub open spec fn binary_form(nb: Seq<u8>) -> Seq<u8> {
    if nb.len() == 0 {
        seq![]
    } else {
        name_field(nb)
    }
}

/// Whether `s` is the name field of a value whose length encodes as `n`.
pub open spec fn is_name_field_of_len(s: Seq<u8>, n: u64) -> bool {
    s.len() >= 1 && s[0] == NAME_KEY && lit_at(s, 1, varint(n as nat)) && s.len() == 1 + varint(
        n as nat,
    ).len() + n
}

/// The name bytes of a binary message in the form this library writes: the empty
/// message holds the empty name, and a message of one name field holds that field's
/// bytes.
pub open spec fn canonical_binary_parse(s: Seq<u8>) -> Option<Seq<u8>> {
    if s.len() == 0 {
        Some(seq![])
    } else if exists|n: u64| is_name_field_of_len(s, n) {
        let n = choose|n: u64| is_name_field_of_len(s, n);
        Some(s.subrange(1 + varint(n as nat).len() as int, s.len() as int))
    } else {
        None
    }
}

/// The position just after a varint read at `i`, with its value.
pub open spec fn varint_at(s: Seq<u8>, i: int) -> Option<(u64, int)> {
    if 0 <= i <= s.len() {
        match varint_read(s.subrange(i, s.len() as int)) {
            Some((v, n)) => if n < s.len() - i {
                Some((v, s.len() - n))
            } else {
                None
            },
            None => None,
        }
    } else {
        None
    }
}

/// Reads the fields of a binary message from position `i`, where the last `name` field
/// so far held `name`: the bytes of the last `name` field (field 2, length-delimited).
/// Fields of other numbers are skipped by their wire type (varint, 64-bit,
/// length-delimited, 32-bit); groups, field number 0, numbers beyond 32 bits, and a
/// `name` field of another wire type are refused.
pub open spec fn binary_fields(s: Seq<u8>, i: int, name: Seq<u8>) -> Option<Seq<u8>>
    decreases s.len() - i,
{
    if !(0 <= i <= s.len()) {
        None
    } else if i == s.len() {
        Some(name)
    } else {
        match varint_at(s, i) {
            None => None,
            Some((key, j)) => {
                let wt = key % 8;
                let tag = key / 8;
                if !(i < j) || tag == 0 || key > 0xffff_ffff || (tag == 2 && wt != 2) {
                    None
                } else if wt == 0 {
                    match varint_at(s, j) {
                        Some((_, k)) => if j < k {
                            binary_fields(s, k, name)
                        } else {
                            None
                        },
                        None => None,
                    }
                } else if wt == 1 {
                    if j + 8 <= s.len() {
                        binary_fields(s, j + 8, name)
                    } else {
                        None
                    }
                } else if wt == 5 {
                    if j + 4 <= s.len() {
                        binary_fields(s, j + 4, name)
                    } else {
                        None
                    }
                } else if wt == 2 {
                    match varint_at(s, j) {
                        Some((n, k)) => if j < k && k + n <= s.len() {
                            binary_fields(
                                s,
                                k + n,
                                if tag == 2 {
                                    s.subrange(k, k + n)
                                } else {
                                    name
                                },
                            )
                        } else {
                            None
                        },
                        None => None,
                    }
                } else {
                    None
                }
            },
        }
    }
}

/// The name bytes that a binary message holds; the empty name where it has no `name`
/// field.
pub open spec fn binary_parse(s: Seq<u8>) -> Option<Seq<u8>> {
    binary_fields(s, 0, seq![])
}

/// The JSON opening of a message, up to the name.
pub open spec fn name_prefix() -> Seq<u8> {
    encode_utf8("{\"name\":"@)
}

/// The JSON message for a name: `{"name":"<name>"}`.
pub open spec fn structured_form(nb: Seq<u8>) -> Seq<u8> {
    name_prefix() + quoted(nb) + seq![CLOSE_BRACE]
}

/// The name bytes that a JSON message holds: `{}` holds the empty name, and
/// `{"name":"..."}` the literal's content.
pub open spec fn structured_parse(s: Seq<u8>) -> Option<Seq<u8>> {
    let a = name_prefix().len() as int;
    if s =~= seq![0x7bu8, CLOSE_BRACE] {
        Some(seq![])
    } else if lit_at(s, 0, name_prefix()) && a < s.len() && s[a] == QUOTE {
        match unescape_from(s, a + 1, seq![]) {
            Some((v, k)) => if k + 1 == s.len() && s[k] == CLOSE_BRACE {
                Some(v)
            } else {
                None
            },
            None => None,
        }
    } else {
        None
    }
}

/// The encoding of a message whose one field is a name.
pub open spec fn message_bytes(ct: ContentType, name: Seq<char>) -> Seq<u8> {
    match ct {
        ContentType::Binary => binary_form(encode_utf8(name)),
        ContentType::Structured => structured_form(encode_utf8(name)),
    }
}

/// The name that a body holds, where it is a well-formed message in the encoding.
pub open spec fn message_name(ct: ContentType, body: Seq<u8>) -> Option<Seq<char>> {
    let p = match ct {
        ContentType::Binary => canonical_binary_parse(body),
        ContentType::Structured => structured_parse(body),
    };
    match p {
        Some(nb) if valid_utf8(nb) => Some(decode_utf8(nb)),
        _ => match ct {
            ContentType::Binary => match binary_parse(body) {
                Some(nb) => if valid_utf8(nb) {
                    Some(decode_utf8(nb))
                } else {
                    None
                },
                None => None,
            },
            ContentType::Structured => match json_object_members(body) {
                Some(m) => member_name(m),
                None => None,
            },
        },
    }
}

/// What `serde_json::from_slice` reads from a body as a JSON object: its members in
/// key order, each with its text where the value is a string.
pub uninterp spec fn json_object_members(b: Seq<u8>) -> Option<Seq<(Seq<char>, Option<Seq<char>>)>>;

/// Relies on `serde_json::from_slice` into a `BTreeMap<String, Value>`: the members
/// depend on the bytes alone, and a body that is not a JSON object gives none.
#[verifier::external_body]
pub(crate) fn read_json_object(b: &[u8]) -> (r: Option<Vec<(String, Option<String>)>>)
    ensures
        match json_object_members(b@) {
            Some(m) => r matches Some(v) && members_match(v@, m),
            None => r is None,
        },
{
    let m = serde_json::from_slice::<std::collections::BTreeMap<String, serde_json::Value>>(b).ok()?;
    let mut out = Vec::new();
    for (k, v) in m {
        out.push((k, match v { serde_json::Value::String(s) => Some(s), _ => None }));
    }
    Some(out)
}

/// The member of a JSON object under `key`, where there is one: its text where it is
/// a string.
pub open spec fn member_of(m: Seq<(Seq<char>, Option<Seq<char>>)>, key: Seq<char>) -> Option<Option<Seq<char>>>
    decreases m.len(),
{
    if m.len() == 0 {
        None
    } else if m[0].0 == key {
        Some(m[0].1)
    } else {
        member_of(m.drop_first(), key)
    }
}

/// The name that the members of a JSON object give: the text of the `name` member, the
/// empty name where there is none, and nothing where it is not a string.
pub open spec fn member_name(m: Seq<(Seq<char>, Option<Seq<char>>)>) -> Option<Seq<char>> {
    match member_of(m, "name"@) {
        Some(v) => v,
        None => Some(seq![]),
    }
}

/// Whether the members read from JSON stand for `m`.
pub open spec fn members_match(v: Seq<(String, Option<String>)>, m: Seq<(Seq<char>, Option<Seq<char>>)>) -> bool {
    v.len() == m.len() && forall|i: int|
        0 <= i < m.len() ==> #[trigger] v[i].0@ == m[i].0 && match v[i].1 {
            Some(s) => m[i].1 == Some(s@),
            None => m[i].1 is None,
        }
}

/// Looks up the member under `key`.
pub(crate) fn find_member(v: &Vec<(String, Option<String>)>, key: &str, Ghost(m): Ghost<Seq<(Seq<char>, Option<Seq<char>>)>>) -> (r: Option<Option<String>>)
    requires
        members_match(v@, m),
    ensures
        match member_of(m, key@) {
            Some(Some(t)) => r matches Some(Some(s)) && s@ == t,
            Some(None) => r == Some(None::<String>),
            None => r is None,
        },
{
    let mut i: usize = 0;
    assert(m.subrange(0, m.len() as int) =~= m);
    while i < v.len()
        invariant
            i <= v@.len(),
            members_match(v@, m),
            member_of(m, key@) == member_of(m.subrange(i as int, m.len() as int), key@),
        decreases v.len() - i,
    {
        let ghost rest = m.subrange(i as int, m.len() as int);
        assert(rest[0] == m[i as int]);
        assert(rest.drop_first() =~= m.subrange(i + 1, m.len() as int));
        if str_eq(v[i].0.as_str(), key) {
            return match &v[i].1 {
                Some(s) => Some(Some(s.clone())),
                None => Some(None),
            };
        }
        i = i + 1;
    }
    None
}

/// Encodes a message whose one field is `name`.
pub fn encode_name_message(ct: ContentType, name: &str) -> (r: Vec<u8>)
    ensures
        r@ == message_bytes(ct, name@),
{
    let nb = name.as_bytes();
    let mut out: Vec<u8> = Vec::new();
    match ct {
        ContentType::Binary => {
            if nb.len() > 0 {
                out.push(NAME_KEY);
                put_varint(nb.len() as u64, &mut out);
                append_bytes(&mut out, nb);
                assert(out@ =~= name_field(nb@));
            } else {
                assert(out@ =~= binary_form(nb@));
            }
        },
        ContentType::Structured => {
            append_bytes(&mut out, "{\"name\":".as_bytes());
            write_quoted(nb, &mut out);
            out.push(CLOSE_BRACE);
            assert(out@ =~= structured_form(nb@));
        },
    }
    out
}

fn read_varint_at(s: &[u8], i: usize) -> (r: Option<(u64, usize)>)
    requires
        i <= s@.len(),
    ensures
        match varint_at(s@, i as int) {
            Some((v, k)) => r == Some((v, k as usize)),
            None => r is None,
        },
{
    match take_varint(s, i) {
        Some((v, n)) => Some((v, s.len() - n)),
        None => None,
    }
}

fn copy_range(s: &[u8], start: usize, end: usize) -> (r: Vec<u8>)
    requires
        start <= end <= s@.len(),
    ensures
        r@ == s@.subrange(start as int, end as int),
{
    let mut out: Vec<u8> = Vec::new();
    let mut i: usize = start;
    while i < end
        invariant
            start <= i <= end,
            end <= s@.len(),
            out@ == s@.subrange(start as int, i as int),
        decreases end - i,
    {
        out.push(s[i]);
        i = i + 1;
        assert(out@ =~= s@.subrange(start as int, i as int));
    }
    out
}

fn binary_name_bytes(s: &[u8]) -> (r: Option<Vec<u8>>)
    ensures
        match binary_parse(s@) {
            Some(v) => r matches Some(w) && w@ == v,
            None => r is None,
        },
{
    let mut name: Vec<u8> = Vec::new();
    let mut i: usize = 0;
    loop
        invariant
            i <= s@.len(),
            binary_fields(s@, i as int, name@) == binary_parse(s@),
        decreases s@.len() - i,
    {
        if i == s.len() {
            return Some(name);
        }
        let (key, j) = match read_varint_at(s, i) {
            Some(p) => p,
            None => {
                return None;
            },
        };
        let wt = key % 8;
        let tag = key / 8;
        if !(i < j) || tag == 0 || key > 0xffff_ffff || (tag == 2 && wt != 2) {
            return None;
        }
        if wt == 0 {
            match read_varint_at(s, j) {
                Some((_, k)) => {
                    if !(j < k) {
                        return None;
                    }
                    i = k;
                },
                None => {
                    return None;
                },
            }
        } else if wt == 1 {
            if s.len() - j < 8 {
                return None;
            }
            i = j + 8;
        } else if wt == 5 {
            if s.len() - j < 4 {
                return None;
            }
            i = j + 4;
        } else if wt == 2 {
            match read_varint_at(s, j) {
                Some((n, k)) => {
                    if !(j < k && n <= (s.len() - k) as u64) {
                        return None;
                    }
                    let e = k + n as usize;
                    if tag == 2 {
                        name = copy_range(s, k, e);
                    }
                    i = e;
                },
                None => {
                    return None;
                },
            }
        } else {
            return None;
        }
    }
}

fn canonical_binary_bytes(s: &[u8]) -> (r: Option<Vec<u8>>)
    ensures
        match canonical_binary_parse(s@) {
            Some(v) => r matches Some(w) && w@ == v,
            None => r is None,
        },
{
    if s.len() == 0 {
        return Some(Vec::new());
    }
    if s[0] != NAME_KEY {
        return None;
    }
    let n = match take_varint(s, 1) {
        Some((n, _)) => n,
        None => {
            proof {
                assert forall|m: u64| !is_name_field_of_len(s@, m) by {
                    if is_name_field_of_len(s@, m) {
                        let rest = s@.subrange(1 + varint(m as nat).len() as int, s@.len() as int);
                        assert(s@.subrange(1, s@.len() as int) =~= varint(m as nat) + rest);
                    }
                }
            }
            return None;
        },
    };
    let mut enc: Vec<u8> = Vec::new();
    put_varint(n, &mut enc);
    assert(enc@ =~= varint(n as nat));
    let ok = starts_at(s, 1, enc.as_slice()) && (s.len() - 1 - enc.len()) as u64 == n;
    proof {
        assert forall|m: u64| is_name_field_of_len(s@, m) implies m == n && ok by {
            let rest = s@.subrange(1 + varint(m as nat).len() as int, s@.len() as int);
            assert(s@.subrange(1, s@.len() as int) =~= varint(m as nat) + rest);
        }
    }
    if !ok {
        return None;
    }
    proof {
        assert(is_name_field_of_len(s@, n));
        let m = choose|m: u64| is_name_field_of_len(s@, m);
        lemma_varint_prefix_free(s@, 1, m as nat, n as nat);
    }
    Some(copy_range(s, 1 + enc.len(), s.len()))
}

fn structured_name_bytes(s: &[u8]) -> (r: Option<Vec<u8>>)
    ensures
        match structured_parse(s@) {
            Some(v) => r matches Some(w) && w@ == v,
            None => r is None,
        },
{
    if s.len() == 2 && s[0] == 0x7b && s[1] == CLOSE_BRACE {
        assert(s@ =~= seq![0x7bu8, CLOSE_BRACE]);
        return Some(Vec::new());
    }
    let p = "{\"name\":".as_bytes();
    let a: usize = p.len();
    if !(starts_at(s, 0, p) && a < s.len() && s[a] == QUOTE) {
        return None;
    }
    match read_quoted(s, a + 1) {
        Some((v, k)) => if k < s.len() && k + 1 == s.len() && s[k] == CLOSE_BRACE {
            Some(v)
        } else {
            None
        },
        None => None,
    }
}

/// Decodes a message whose one field is a name. A body that is not such a message in
/// the encoding is an invalid argument.
pub fn decode_name_message(ct: ContentType, body: &[u8]) -> (r: Result<String, TwirpErrorResponse>)
    ensures
        match message_name(ct, body@) {
            Some(n) => r matches Ok(s) && s@ == n,
            None => r matches Err(e) && e.code == TwirpErrorCode::InvalidArgument && e.meta@.len()
                == 0,
        },
{
    let p = match ct {
        ContentType::Binary => canonical_binary_bytes(body),
        ContentType::Structured => structured_name_bytes(body),
    };
    if let Some(v) = p {
        if let Some(s) = string_from_utf8(v) {
            return Ok(s);
        }
    }
    if ct == ContentType::Binary {
        return match binary_name_bytes(body) {
            Some(v) => match string_from_utf8(v) {
                Some(s) => Ok(s),
                None => Err(invalid_argument("the name is not valid UTF-8")),
            },
            None => Err(invalid_argument("the body is not a well-formed message")),
        };
    }
    match read_json_object(body) {
        Some(v) => {
            let ghost m = json_object_members(body@).unwrap();
            match find_member(&v, "name", Ghost(m)) {
                Some(Some(s)) => Ok(s),
                Some(None) => Err(invalid_argument("the name is not a string")),
                None => Ok(String::new()),
            }
        },
        None => Err(invalid_argument("the body is not a JSON object")),
    }
}

/// A message decodes, in the encoding it was written in, to the name it was written
/// from; in either encoding.
pub proof fn lemma_message_round_trip(ct: ContentType, name: Seq<char>)
    requires
        encode_utf8(name).len() <= u64::MAX,
    ensures
        message_name(ct, message_bytes(ct, name)) == Some(name),
{
    let nb = encode_utf8(name);
    let s = message_bytes(ct, name);
    vstd::utf8::encode_utf8_valid_utf8(name);
    vstd::utf8::encode_utf8_decode_utf8(name);
    match ct {
        ContentType::Binary => {
            if nb.len() == 0 {
                assert(canonical_binary_parse(s) == Some(nb));
            } else {
                let n = nb.len() as u64;
                assert(s =~= seq![NAME_KEY] + varint(n as nat) + nb);
                assert(s.subrange(1, 1 + varint(n as nat).len() as int) =~= varint(n as nat));
                assert(is_name_field_of_len(s, n));
                let m = choose|m: u64| is_name_field_of_len(s, m);
                lemma_varint_prefix_free(s, 1, m as nat, n as nat);
                assert(s.subrange(1 + varint(n as nat).len() as int, s.len() as int) =~= nb);
            }
        },
        ContentType::Structured => {
            let a = name_prefix().len() as int;
            assert(s =~= name_prefix() + seq![QUOTE] + crate::json::escape(nb) + seq![QUOTE] + seq![CLOSE_BRACE]);
            assert(s.subrange(0, a) =~= name_prefix());
            crate::json::lemma_unescape_escape(name_prefix() + seq![QUOTE], nb, seq![CLOSE_BRACE], seq![]);
            assert(Seq::<u8>::empty() + nb =~= nb);
            reveal_strlit("{\"name\":");
            assert(s.len() > 2);
            assert(!(s =~= seq![0x7bu8, CLOSE_BRACE]));
        },
    }
}

} // verus!
