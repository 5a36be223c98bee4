use vstd::prelude::*;
use vstd::utf8::{decode_utf8, encode_utf8, valid_utf8};

use crate::json::{escape, quoted, read_quoted, unescape_from, write_quoted, QUOTE};
use crate::codec::{find_member, json_object_members, member_of, read_json_object};
use crate::text::{append_bytes, lit_at, lossy_text, starts_at, str_eq, string_from_utf8, string_from_utf8_lossy};

verus! {

/// The closed set of protocol error categories.
#[derive(Clone, Copy, Debug, PartialEq, Eq, Structural)]
pub enum TwirpErrorCode {
    Canceled,
    Unknown,
    InvalidArgument,
    NotFound,
    AlreadyExists,
    PermissionDenied,
    Unauthenticated,
    ResourceExhausted,
    FailedPrecondition,
    Aborted,
    OutOfRange,
    Unimplemented,
    Internal,
    Unavailable,
    DataLoss,
}

/// The HTTP status that each error code is written with.
pub open spec fn status_of(code: TwirpErrorCode) -> u16 {
    match code {
        TwirpErrorCode::Canceled => 408,
        TwirpErrorCode::Unknown => 500,
        TwirpErrorCode::InvalidArgument => 400,
        TwirpErrorCode::NotFound => 404,
        TwirpErrorCode::AlreadyExists => 409,
        TwirpErrorCode::PermissionDenied => 403,
        TwirpErrorCode::Unauthenticated => 401,
        TwirpErrorCode::ResourceExhausted => 429,
        TwirpErrorCode::FailedPrecondition => 412,
        TwirpErrorCode::Aborted => 409,
        TwirpErrorCode::OutOfRange => 400,
        TwirpErrorCode::Unimplemented => 404,
        TwirpErrorCode::Internal => 500,
        TwirpErrorCode::Unavailable => 503,
        TwirpErrorCode::DataLoss => 500,
    }
}

/// The wire name of each error code.
pub open spec fn name_of(code: TwirpErrorCode) -> Seq<char> {
    match code {
        TwirpErrorCode::Canceled => "canceled"@,
        TwirpErrorCode::Unknown => "unknown"@,
        TwirpErrorCode::InvalidArgument => "invalid_argument"@,
        TwirpErrorCode::NotFound => "not_found"@,
        TwirpErrorCode::AlreadyExists => "already_exists"@,
        TwirpErrorCode::PermissionDenied => "permission_denied"@,
        TwirpErrorCode::Unauthenticated => "unauthenticated"@,
        TwirpErrorCode::ResourceExhausted => "resource_exhausted"@,
        TwirpErrorCode::FailedPrecondition => "failed_precondition"@,
        TwirpErrorCode::Aborted => "aborted"@,
        TwirpErrorCode::OutOfRange => "out_of_range"@,
        TwirpErrorCode::Unimplemented => "unimplemented"@,
        TwirpErrorCode::Internal => "internal"@,
        TwirpErrorCode::Unavailable => "unavailable"@,
        TwirpErrorCode::DataLoss => "dataloss"@,
    }
}

/// The wire name of each error code, as UTF-8 bytes.
pub open spec fn name_bytes_of(code: TwirpErrorCode) -> Seq<u8> {
    encode_utf8(name_of(code))
}

impl TwirpErrorCode {
    pub fn http_status_code(&self) -> (r: u16)
        ensures
            r == status_of(*self),
    {
        match self {
            TwirpErrorCode::Canceled => 408,
            TwirpErrorCode::Unknown => 500,
            TwirpErrorCode::InvalidArgument => 400,
            TwirpErrorCode::NotFound => 404,
            TwirpErrorCode::AlreadyExists => 409,
            TwirpErrorCode::PermissionDenied => 403,
            TwirpErrorCode::Unauthenticated => 401,
            TwirpErrorCode::ResourceExhausted => 429,
            TwirpErrorCode::FailedPrecondition => 412,
            TwirpErrorCode::Aborted => 409,
            TwirpErrorCode::OutOfRange => 400,
            TwirpErrorCode::Unimplemented => 404,
            TwirpErrorCode::Internal => 500,
            TwirpErrorCode::Unavailable => 503,
            TwirpErrorCode::DataLoss => 500,
        }
    }

    pub fn as_str(&self) -> (r: &'static str)
        ensures
            r@ == name_of(*self),
    {
        match self {
            TwirpErrorCode::Canceled => "canceled",
            TwirpErrorCode::Unknown => "unknown",
            TwirpErrorCode::InvalidArgument => "invalid_argument",
            TwirpErrorCode::NotFound => "not_found",
            TwirpErrorCode::AlreadyExists => "already_exists",
            TwirpErrorCode::PermissionDenied => "permission_denied",
            TwirpErrorCode::Unauthenticated => "unauthenticated",
            TwirpErrorCode::ResourceExhausted => "resource_exhausted",
            TwirpErrorCode::FailedPrecondition => "failed_precondition",
            TwirpErrorCode::Aborted => "aborted",
            TwirpErrorCode::OutOfRange => "out_of_range",
            TwirpErrorCode::Unimplemented => "unimplemented",
            TwirpErrorCode::Internal => "internal",
            TwirpErrorCode::Unavailable => "unavailable",
            TwirpErrorCode::DataLoss => "dataloss",
        }
    }
}

/// Distinct codes have distinct wire names.
pub proof fn lemma_names_distinct(a: TwirpErrorCode, b: TwirpErrorCode)
    requires
        a != b,
    ensures
        name_of(a) != name_of(b),
        name_bytes_of(a) != name_bytes_of(b),
{
    reveal_strlit("canceled");
    reveal_strlit("unknown");
    reveal_strlit("invalid_argument");
    reveal_strlit("not_found");
    reveal_strlit("already_exists");
    reveal_strlit("permission_denied");
    reveal_strlit("unauthenticated");
    reveal_strlit("resource_exhausted");
    reveal_strlit("failed_precondition");
    reveal_strlit("aborted");
    reveal_strlit("out_of_range");
    reveal_strlit("unimplemented");
    reveal_strlit("internal");
    reveal_strlit("unavailable");
    reveal_strlit("dataloss");
    vstd::utf8::encode_utf8_decode_utf8(name_of(a));
    vstd::utf8::encode_utf8_decode_utf8(name_of(b));
}

pub const CLOSE_BRACE: u8 = 0x7d;

/// The error envelope: the wire representation of every protocol error.
pub struct TwirpErrorResponse {
    pub code: TwirpErrorCode,
    pub msg: String,
    /// Key/value metadata; a key stands at most once.
    pub meta: Vec<(String, String)>,
}

/// The keys of a metadata list, in order.
pub open spec fn meta_keys(meta: Seq<(String, String)>) -> Seq<Seq<char>> {
    meta.map_values(|p: (String, String)| p.0@)
}

impl TwirpErrorResponse {
    /// No key stands twice in the metadata.
    pub open spec fn wf(&self) -> bool {
        meta_keys(self.meta@).no_duplicates()
    }

    /// An envelope with the given code and message and no metadata.
    pub fn new(code: TwirpErrorCode, msg: &str) -> (r: TwirpErrorResponse)
        ensures
            r.code == code,
            r.msg@ == msg@,
            r.meta@.len() == 0,
            r.wf(),
    {
        let r = TwirpErrorResponse { code, msg: msg.to_owned(), meta: Vec::new() };
        assert(meta_keys(r.meta@) =~= Seq::<Seq<char>>::empty());
        r
    }

    /// Sets `key` to `value` in the metadata, replacing an earlier value of that key.
    pub fn with_meta(self, key: &str, value: &str) -> (r: TwirpErrorResponse)
        requires
            self.wf(),
        ensures
            r.wf(),
            r.code == self.code,
            r.msg@ == self.msg@,
            r.meta@.len() >= self.meta@.len(),
            meta_keys(self.meta@).contains(key@) ==> r.meta@.len() == self.meta@.len(),
            !meta_keys(self.meta@).contains(key@) ==> r.meta@.len() == self.meta@.len() + 1
                && r.meta@.last().0@ == key@ && r.meta@.last().1@ == value@,
            forall|i: int|
                0 <= i < self.meta@.len() ==> if self.meta@[i].0@ == key@ {
                    r.meta@[i].0@ == key@ && r.meta@[i].1@ == value@
                } else {
                    r.meta@[i] == self.meta@[i]
                },
    {
        let TwirpErrorResponse { code, msg, mut meta } = self;
        let mut i: usize = 0;
        while i < meta.len()
            invariant
                i <= meta.len(),
                meta@ == self.meta@,
                code == self.code,
                msg@ == self.msg@,
                meta_keys(meta@).no_duplicates(),
                forall|t: int| 0 <= t < i ==> meta@[t].0@ != key@,
            decreases meta.len() - i,
        {
            if str_eq(meta[i].0.as_str(), key) {
                let ghost m0 = meta@;
                meta[i] = (key.to_owned(), value.to_owned());
                proof {
                    assert(meta_keys(m0)[i as int] == key@);
                    assert(meta_keys(meta@) =~= meta_keys(m0).update(i as int, key@));
                    assert(meta_keys(meta@) =~= meta_keys(m0));
                    assert(meta_keys(m0).contains(key@));
                    assert forall|t: int| 0 <= t < m0.len() && m0[t].0@ == key@ implies t == i by {
                        assert(meta_keys(m0)[t] == meta_keys(m0)[i as int]);
                        assert(meta_keys(m0).no_duplicates());
                    }
                }
                return TwirpErrorResponse { code, msg, meta };
            }
            i = i + 1;
        }
        let ghost m0 = meta@;
        proof {
            assert forall|t: int| 0 <= t < meta_keys(m0).len() implies meta_keys(m0)[t] != key@ by {}
        }
        meta.push((key.to_owned(), value.to_owned()));
        assert(meta_keys(meta@) =~= meta_keys(m0).push(key@));
        TwirpErrorResponse { code, msg, meta }
    }
}

pub const COLON: u8 = 0x3a;

pub const COMMA: u8 = 0x2c;

/// The opening of an error body, up to the code.
pub open spec fn code_prefix() -> Seq<u8> {
    encode_utf8("{\"code\":"@)
}

/// What stands between the code and the message.
pub open spec fn msg_prefix() -> Seq<u8> {
    encode_utf8(",\"msg\":"@)
}

/// What stands between the message and the metadata entries.
pub open spec fn meta_prefix() -> Seq<u8> {
    encode_utf8(",\"meta\":{"@)
}

/// The metadata as pairs of UTF-8 byte sequences.
pub open spec fn meta_bytes(meta: Seq<(String, String)>) -> Seq<(Seq<u8>, Seq<u8>)> {
    meta.map_values(|p: (String, String)| (encode_utf8(p.0@), encode_utf8(p.1@)))
}

/// One metadata entry of an error body.
pub open spec fn meta_entry(p: (Seq<u8>, Seq<u8>)) -> Seq<u8> {
    quoted(p.0) + seq![COLON] + quoted(p.1)
}

/// The metadata entries of an error body, separated by commas.
pub open spec fn meta_entries(m: Seq<(Seq<u8>, Seq<u8>)>) -> Seq<u8>
    decreases m.len(),
{
    if m.len() == 0 {
        seq![]
    } else if m.len() == 1 {
        meta_entry(m[0])
    } else {
        meta_entry(m[0]) + seq![COMMA] + meta_entries(m.drop_first())
    }
}

/// The entries from index `i` on, with the comma that leads them unless they come first.
pub open spec fn meta_rest(m: Seq<(Seq<u8>, Seq<u8>)>, i: int) -> Seq<u8> {
    if i >= m.len() {
        seq![]
    } else if i <= 0 {
        meta_entries(m)
    } else {
        seq![COMMA] + meta_entries(m.subrange(i, m.len() as int))
    }
}

/// The metadata part of an error body: nothing where there is no metadata.
pub open spec fn meta_part(m: Seq<(Seq<u8>, Seq<u8>)>) -> Seq<u8> {
    if m.len() == 0 {
        seq![]
    } else {
        meta_prefix() + meta_entries(m) + seq![CLOSE_BRACE]
    }
}

/// The structured wire form of an error envelope:
/// `{"code":"<name>","msg":"<message>","meta":{"<key>":"<value>",...}}`, with the
/// metadata left out where there is none.
pub open spec fn error_body(code: TwirpErrorCode, msg: Seq<char>, meta: Seq<(String, String)>) -> Seq<u8> {
    code_prefix() + quoted(name_bytes_of(code)) + msg_prefix() + quoted(encode_utf8(msg)) + meta_part(
        meta_bytes(meta),
    ) + seq![CLOSE_BRACE]
}

/// The code whose wire name is `name`, if there is one.
pub open spec fn code_named(name: Seq<u8>) -> Option<TwirpErrorCode> {
    if exists|c: TwirpErrorCode| name_bytes_of(c) == name {
        Some(choose|c: TwirpErrorCode| name_bytes_of(c) == name)
    } else {
        None
    }
}

/// Reads metadata entries from position `i` up to and including the closing brace of
/// the object, having read `acc` so far: the entries' bytes and the position after the
/// brace.
pub open spec fn parse_meta_entries(s: Seq<u8>, i: int, acc: Seq<(Seq<u8>, Seq<u8>)>) -> Option<
    (Seq<(Seq<u8>, Seq<u8>)>, int),
>
    decreases s.len() - i,
{
    if !(0 <= i < s.len() && s[i] == QUOTE) {
        None
    } else {
        match unescape_from(s, i + 1, seq![]) {
            None => None,
            Some((k, j)) => if !(0 <= j && j + 1 < s.len() && s[j] == COLON && s[j + 1] == QUOTE) {
                None
            } else {
                match unescape_from(s, j + 2, seq![]) {
                    None => None,
                    Some((v, e)) => if !(i < e < s.len()) {
                        None
                    } else if s[e] == COMMA {
                        parse_meta_entries(s, e + 1, acc.push((k, v)))
                    } else if s[e] == CLOSE_BRACE {
                        Some((acc.push((k, v)), e + 1))
                    } else {
                        None
                    },
                }
            },
        }
    }
}

/// Reads the rest of an error body from position `k`, just after the message: the
/// closing brace, or the metadata object and then the closing brace.
pub open spec fn parse_error_tail(s: Seq<u8>, k: int) -> Option<Seq<(Seq<u8>, Seq<u8>)>> {
    let p = k + meta_prefix().len();
    if k + 1 == s.len() && 0 <= k && s[k] == CLOSE_BRACE {
        Some(seq![])
    } else if !lit_at(s, k, meta_prefix()) {
        None
    } else if p + 2 == s.len() && s[p] == CLOSE_BRACE && s[p + 1] == CLOSE_BRACE {
        Some(seq![])
    } else {
        match parse_meta_entries(s, p, seq![]) {
            Some((mm, q)) => if q + 1 == s.len() && s[q] == CLOSE_BRACE {
                Some(mm)
            } else {
                None
            },
            None => None,
        }
    }
}

/// Reads an error body `{"code":"<name>","msg":"<message>","meta":{...}}` (the metadata
/// may be left out): the code, and the bytes of the message and of the metadata.
pub open spec fn parse_error_body(s: Seq<u8>) -> Option<(TwirpErrorCode, Seq<u8>, Seq<(Seq<u8>, Seq<u8>)>)> {
    let a = code_prefix().len() as int;
    if !(lit_at(s, 0, code_prefix()) && a < s.len() && s[a] == QUOTE) {
        None
    } else {
        match unescape_from(s, a + 1, seq![]) {
            None => None,
            Some((name, j)) => {
                let b = j + msg_prefix().len();
                if code_named(name) is Some && lit_at(s, j, msg_prefix()) && b < s.len() && s[b]
                    == QUOTE {
                    match unescape_from(s, b + 1, seq![]) {
                        Some((m, k)) => match parse_error_tail(s, k) {
                            Some(mm) => Some((code_named(name).unwrap(), m, mm)),
                            None => None,
                        },
                        None => None,
                    }
                } else {
                    None
                }
            },
        }
    }
}

/// Whether every key and value is valid UTF-8.
pub open spec fn all_valid(m: Seq<(Seq<u8>, Seq<u8>)>) -> bool {
    forall|i: int| #![trigger m[i]] 0 <= i < m.len() ==> valid_utf8(m[i].0) && valid_utf8(m[i].1)
}

/// The text of metadata read as bytes.
pub open spec fn decode_meta(m: Seq<(Seq<u8>, Seq<u8>)>) -> Seq<(Seq<char>, Seq<char>)> {
    m.map_values(|p: (Seq<u8>, Seq<u8>)| (decode_utf8(p.0), decode_utf8(p.1)))
}

/// The text of an envelope's metadata.
pub open spec fn meta_view(meta: Seq<(String, String)>) -> Seq<(Seq<char>, Seq<char>)> {
    meta.map_values(|p: (String, String)| (p.0@, p.1@))
}

/// Whether an error body is well formed, its texts included.
pub open spec fn well_formed_error(body: Seq<u8>) -> bool {
    match parse_error_body(body) {
        Some((c, m, mm)) => valid_utf8(m) && all_valid(mm),
        None => false,
    }
}

/// The metadata that a client reads from an error body: what it holds where it is well
/// formed, else none.
pub open spec fn decoded_meta(body: Seq<u8>) -> Seq<(Seq<char>, Seq<char>)> {
    if well_formed_error(body) {
        let (c, m, mm) = parse_error_body(body).unwrap();
        decode_meta(mm)
    } else {
        seq![]
    }
}

/// The code and message that a client reads from an error body: those it holds, where
/// it is well formed; else an internal error whose message is the body's text.
pub open spec fn decoded_error(body: Seq<u8>) -> (TwirpErrorCode, Seq<char>) {
    if well_formed_error(body) {
        let (c, m, mm) = parse_error_body(body).unwrap();
        (c, decode_utf8(m))
    } else {
        match json_error(body) {
            Some((c, m)) => (c, m),
            None => (TwirpErrorCode::Internal, lossy_text(body)),
        }
    }
}

/// The code and message of an error body in another JSON layout: an object whose
/// `code` member is the wire name of a code and whose `msg` member, where there is one,
/// is a string.
pub open spec fn json_error(body: Seq<u8>) -> Option<(TwirpErrorCode, Seq<char>)> {
    match json_object_members(body) {
        Some(m) => match member_of(m, "code"@) {
            Some(Some(cn)) => match code_named(encode_utf8(cn)) {
                Some(c) => match member_of(m, "msg"@) {
                    Some(Some(ms)) => Some((c, ms)),
                    None => Some((c, seq![])),
                    Some(None) => None,
                },
                None => None,
            },
            _ => None,
        },
        None => None,
    }
}

proof fn lemma_code_named(c: TwirpErrorCode)
    ensures
        code_named(name_bytes_of(c)) == Some(c),
{
    let n = name_bytes_of(c);
    let d = choose|d: TwirpErrorCode| name_bytes_of(d) == n;
    if d != c {
        lemma_names_distinct(c, d);
    }
}

proof fn lemma_parse_meta_extends(s: Seq<u8>, i: int, acc: Seq<(Seq<u8>, Seq<u8>)>)
    ensures
        parse_meta_entries(s, i, acc) matches Some((mm, q)) ==> mm.len() >= acc.len()
            && mm.subrange(0, acc.len() as int) == acc,
    decreases s.len() - i,
{
    if 0 <= i < s.len() && s[i] == QUOTE {
        if let Some((k, j)) = unescape_from(s, i + 1, seq![]) {
            if 0 <= j && j + 1 < s.len() && s[j] == COLON && s[j + 1] == QUOTE {
                if let Some((v, e)) = unescape_from(s, j + 2, seq![]) {
                    if i < e < s.len() {
                        if s[e] == COMMA {
                            lemma_parse_meta_extends(s, e + 1, acc.push((k, v)));
                            if let Some((mm, q)) = parse_meta_entries(s, e + 1, acc.push((k, v))) {
                                assert(mm.subrange(0, acc.len() as int) =~= mm.subrange(
                                    0,
                                    acc.len() + 1 as int,
                                ).subrange(0, acc.len() as int));
                                assert(acc.push((k, v)).subrange(0, acc.len() as int) =~= acc);
                            }
                        } else if s[e] == CLOSE_BRACE {
                            assert(acc.push((k, v)).subrange(0, acc.len() as int) =~= acc);
                        }
                    }
                }
            }
        }
    }
}

#[verifier::rlimit(100)]
#[verifier::spinoff_prover]
proof fn lemma_parse_meta_written(
    pre: Seq<u8>,
    m: Seq<(Seq<u8>, Seq<u8>)>,
    rest: Seq<u8>,
    acc: Seq<(Seq<u8>, Seq<u8>)>,
)
    requires
        m.len() > 0,
    ensures
        parse_meta_entries(pre + meta_entries(m) + seq![CLOSE_BRACE] + rest, pre.len() as int, acc)
            == Some((acc + m, (pre.len() + meta_entries(m).len() + 1) as int)),
    decreases m.len(),
{
    let s = pre + meta_entries(m) + seq![CLOSE_BRACE] + rest;
    let k = m[0].0;
    let v = m[0].1;
    let after: Seq<u8> = if m.len() == 1 {
        seq![CLOSE_BRACE] + rest
    } else {
        seq![COMMA] + meta_entries(m.drop_first()) + seq![CLOSE_BRACE] + rest
    };
    assert(s =~= pre + seq![QUOTE] + escape(k) + seq![QUOTE] + (seq![COLON] + quoted(v) + after));
    crate::json::lemma_unescape_escape(pre + seq![QUOTE], k, seq![COLON] + quoted(v) + after, seq![]);
    assert(Seq::<u8>::empty() + k =~= k);
    let j = (pre.len() + 1 + escape(k).len() + 1) as int;
    let pre2 = pre + seq![QUOTE] + escape(k) + seq![QUOTE] + seq![COLON];
    assert(s =~= pre2 + seq![QUOTE] + escape(v) + seq![QUOTE] + after);
    assert(s[j] == COLON);
    assert(s[j + 1] == QUOTE);
    crate::json::lemma_unescape_escape(pre2 + seq![QUOTE], v, after, seq![]);
    assert(Seq::<u8>::empty() + v =~= v);
    let e = j + 2 + escape(v).len() + 1 as int;
    let pre3 = pre + meta_entry(m[0]);
    assert(pre3.len() == e);
    if m.len() == 1 {
        assert(s[e] == CLOSE_BRACE);
        assert(acc.push((k, v)) =~= acc + m);
    } else {
        assert(s[e] == COMMA);
        assert(s =~= (pre3 + seq![COMMA]) + meta_entries(m.drop_first()) + seq![CLOSE_BRACE] + rest);
        lemma_parse_meta_written(pre3 + seq![COMMA], m.drop_first(), rest, acc.push((k, v)));
        assert(acc.push((k, v)) + m.drop_first() =~= acc + m);
    }
}

/// An error body reads back as the code, message and metadata it was written from.
#[verifier::rlimit(100)]
#[verifier::spinoff_prover]
pub proof fn lemma_error_body_round_trip(code: TwirpErrorCode, msg: Seq<char>, meta: Seq<(String, String)>)
    ensures
        decoded_error(error_body(code, msg, meta)) == (code, msg),
        decoded_meta(error_body(code, msg, meta)) == meta_view(meta),
{
    let nb = name_bytes_of(code);
    let mb = encode_utf8(msg);
    let s = error_body(code, msg, meta);
    let a = code_prefix().len() as int;
    let mm = meta_bytes(meta);
    let tail = msg_prefix() + quoted(mb) + meta_part(mm) + seq![CLOSE_BRACE];
    assert(s =~= code_prefix() + seq![QUOTE] + escape(nb) + seq![QUOTE] + tail);
    assert(s.subrange(0, a) =~= code_prefix());
    assert(s[a] == QUOTE);
    crate::json::lemma_unescape_escape(code_prefix() + seq![QUOTE], nb, tail, seq![]);
    assert(Seq::<u8>::empty() + nb =~= nb);
    let j = a + 1 + escape(nb).len() + 1;
    lemma_code_named(code);
    let b = j + msg_prefix().len();
    let pre2 = code_prefix() + seq![QUOTE] + escape(nb) + seq![QUOTE] + msg_prefix();
    let tail2 = meta_part(mm) + seq![CLOSE_BRACE];
    assert(s =~= pre2 + seq![QUOTE] + escape(mb) + seq![QUOTE] + tail2);
    assert(s.subrange(j, b) =~= msg_prefix());
    assert(s[b] == QUOTE);
    crate::json::lemma_unescape_escape(pre2 + seq![QUOTE], mb, tail2, seq![]);
    assert(Seq::<u8>::empty() + mb =~= mb);
    let k = b + 1 + escape(mb).len() + 1;
    let pre3 = pre2 + quoted(mb);
    assert(pre3.len() == k);
    vstd::utf8::encode_utf8_valid_utf8(msg);
    vstd::utf8::encode_utf8_decode_utf8(msg);
    if mm.len() == 0 {
        assert(s[k] == CLOSE_BRACE);
        assert(parse_error_tail(s, k) == Some(Seq::<(Seq<u8>, Seq<u8>)>::empty()));
        assert(mm =~= Seq::<(Seq<u8>, Seq<u8>)>::empty());
        assert(decode_meta(mm) =~= meta_view(meta));
    } else {
        let p = k + meta_prefix().len();
        assert(s =~= pre3 + meta_prefix() + meta_entries(mm) + seq![CLOSE_BRACE] + seq![CLOSE_BRACE]);
        assert(s.subrange(k, p) =~= meta_prefix());
        assert(!(k + 1 == s.len()));
        lemma_parse_meta_written(pre3 + meta_prefix(), mm, seq![CLOSE_BRACE], seq![]);
        assert(Seq::<(Seq<u8>, Seq<u8>)>::empty() + mm =~= mm);
        let q = p + meta_entries(mm).len() + 1;
        assert(s[q] == CLOSE_BRACE);
        assert(q + 1 == s.len());
        assert(meta_entries(mm).len() > 0);
        assert(parse_error_tail(s, k) == Some(mm));
        assert forall|i: int| 0 <= i < mm.len() implies #[trigger] valid_utf8(mm[i].0) && valid_utf8(mm[i].1) by {
            vstd::utf8::encode_utf8_valid_utf8(meta[i].0@);
            vstd::utf8::encode_utf8_valid_utf8(meta[i].1@);
        }
        assert forall|i: int| 0 <= i < mm.len() implies #[trigger] decode_meta(mm)[i] == meta_view(meta)[i] by {
            vstd::utf8::encode_utf8_decode_utf8(meta[i].0@);
            vstd::utf8::encode_utf8_decode_utf8(meta[i].1@);
        }
        assert(decode_meta(mm) =~= meta_view(meta));
    }
}

fn all_codes_vec() -> (v: Vec<TwirpErrorCode>)
    ensures
        forall|c: TwirpErrorCode| v@.contains(c),
{
    let mut v: Vec<TwirpErrorCode> = Vec::new();
    v.push(TwirpErrorCode::Canceled);
    v.push(TwirpErrorCode::Unknown);
    v.push(TwirpErrorCode::InvalidArgument);
    v.push(TwirpErrorCode::NotFound);
    v.push(TwirpErrorCode::AlreadyExists);
    v.push(TwirpErrorCode::PermissionDenied);
    v.push(TwirpErrorCode::Unauthenticated);
    v.push(TwirpErrorCode::ResourceExhausted);
    v.push(TwirpErrorCode::FailedPrecondition);
    v.push(TwirpErrorCode::Aborted);
    v.push(TwirpErrorCode::OutOfRange);
    v.push(TwirpErrorCode::Unimplemented);
    v.push(TwirpErrorCode::Internal);
    v.push(TwirpErrorCode::Unavailable);
    v.push(TwirpErrorCode::DataLoss);
    proof {
        assert forall|c: TwirpErrorCode| v@.contains(c) by {
            match c {
                TwirpErrorCode::Canceled => assert(v@[0] == c),
                TwirpErrorCode::Unknown => assert(v@[1] == c),
                TwirpErrorCode::InvalidArgument => assert(v@[2] == c),
                TwirpErrorCode::NotFound => assert(v@[3] == c),
                TwirpErrorCode::AlreadyExists => assert(v@[4] == c),
                TwirpErrorCode::PermissionDenied => assert(v@[5] == c),
                TwirpErrorCode::Unauthenticated => assert(v@[6] == c),
                TwirpErrorCode::ResourceExhausted => assert(v@[7] == c),
                TwirpErrorCode::FailedPrecondition => assert(v@[8] == c),
                TwirpErrorCode::Aborted => assert(v@[9] == c),
                TwirpErrorCode::OutOfRange => assert(v@[10] == c),
                TwirpErrorCode::Unimplemented => assert(v@[11] == c),
                TwirpErrorCode::Internal => assert(v@[12] == c),
                TwirpErrorCode::Unavailable => assert(v@[13] == c),
                TwirpErrorCode::DataLoss => assert(v@[14] == c),
            }
        }
    }
    v
}

/// Looks up the code whose wire name is `name`.
pub fn code_from_name(name: &[u8]) -> (r: Option<TwirpErrorCode>)
    ensures
        r == code_named(name@),
{
    let codes = all_codes_vec();
    let mut i: usize = 0;
    while i < codes.len()
        invariant
            i <= codes.len(),
            forall|c: TwirpErrorCode| codes@.contains(c),
            forall|t: int| 0 <= t < i ==> name_bytes_of(#[trigger] codes@[t]) != name@,
        decreases codes.len() - i,
    {
        let c = codes[i];
        if starts_at(name, 0, c.as_str().as_bytes()) && name.len() == c.as_str().as_bytes().len() {
            proof {
                assert(name@.subrange(0, name@.len() as int) =~= name@);
                lemma_code_named(c);
            }
            return Some(c);
        }
        proof {
            if name_bytes_of(c) == name@ {
                assert(name@.subrange(0, name@.len() as int) =~= name@);
            }
        }
        i = i + 1;
    }
    proof {
        assert forall|c: TwirpErrorCode| name_bytes_of(c) != name@ by {
            assert(codes@.contains(c));
            let t = choose|t: int| 0 <= t < codes@.len() && codes@[t] == c;
            assert(name_bytes_of(codes@[t]) != name@);
        }
    }
    None
}

fn write_meta_entry(out: &mut Vec<u8>, k: &String, v: &String)
    ensures
        final(out)@ == old(out)@ + meta_entry((encode_utf8(k@), encode_utf8(v@))),
{
    write_quoted(k.as_str().as_bytes(), out);
    out.push(COLON);
    write_quoted(v.as_str().as_bytes(), out);
    assert(final(out)@ =~= old(out)@ + meta_entry((encode_utf8(k@), encode_utf8(v@))));
}

/// Writes the structured wire form of an error envelope.
pub fn encode_error_body(e: &TwirpErrorResponse) -> (r: Vec<u8>)
    ensures
        r@ == error_body(e.code, e.msg@, e.meta@),
{
    let mut out: Vec<u8> = Vec::new();
    append_bytes(&mut out, "{\"code\":".as_bytes());
    write_quoted(e.code.as_str().as_bytes(), &mut out);
    append_bytes(&mut out, ",\"msg\":".as_bytes());
    write_quoted(e.msg.as_str().as_bytes(), &mut out);
    let ghost base = out@;
    let ghost m = meta_bytes(e.meta@);
    if e.meta.len() > 0 {
        append_bytes(&mut out, ",\"meta\":{".as_bytes());
        let ghost start = out@;
        let mut i: usize = 0;
        while i < e.meta.len()
            invariant
                i <= e.meta.len(),
                m == meta_bytes(e.meta@),
                out@ + meta_rest(m, i as int) == start + meta_entries(m),
            decreases e.meta.len() - i,
        {
            let ghost before = out@;
            proof {
                let t = m.subrange(i as int, m.len() as int);
                assert(t.drop_first() =~= m.subrange(i + 1, m.len() as int));
                assert(t[0] == m[i as int]);
                if i == 0 {
                    assert(t =~= m);
                }
                let lead: Seq<u8> = if i > 0 { seq![COMMA] } else { seq![] };
                assert(meta_rest(m, i as int) =~= lead + meta_entry(m[i as int]) + meta_rest(m, i + 1));
            }
            if i > 0 {
                out.push(COMMA);
            }
            write_meta_entry(&mut out, &e.meta[i].0, &e.meta[i].1);
            i = i + 1;
            assert(out@ + meta_rest(m, i as int) =~= start + meta_entries(m));
        }
        assert(out@ =~= start + meta_entries(m));
        out.push(CLOSE_BRACE);
    } else {
        assert(m.len() == 0);
    }
    out.push(CLOSE_BRACE);
    assert(out@ =~= error_body(e.code, e.msg@, e.meta@));
    out
}

/// Reads metadata entries from `start` up to and including the closing brace of the
/// object; `None` where they are not well formed or a text is not valid UTF-8.
fn read_meta_entries(s: &[u8], start: usize) -> (r: Option<(Vec<(String, String)>, usize)>)
    ensures
        match parse_meta_entries(s@, start as int, seq![]) {
            Some((mm, q)) => if all_valid(mm) {
                r matches Some((v, e)) && e == q && meta_view(v@) == decode_meta(mm)
            } else {
                r is None
            },
            None => r is None,
        },
{
    let mut out: Vec<(String, String)> = Vec::new();
    let ghost mut acc: Seq<(Seq<u8>, Seq<u8>)> = seq![];
    let mut pos: usize = start;
    loop
        invariant
            parse_meta_entries(s@, pos as int, acc) == parse_meta_entries(s@, start as int, seq![]),
            all_valid(acc),
            meta_view(out@) == decode_meta(acc),
        decreases s.len() - pos,
    {
        proof {
            lemma_parse_meta_extends(s@, pos as int, acc);
        }
        if !(pos < s.len() && s[pos] == QUOTE) {
            return None;
        }
        let (k, j) = match read_quoted(s, pos + 1) {
            Some(p) => p,
            None => {
                return None;
            },
        };
        if !(j < s.len() && s.len() - j >= 2 && s[j] == COLON && s[j + 1] == QUOTE) {
            return None;
        }
        let (v, e) = match read_quoted(s, j + 2) {
            Some(p) => p,
            None => {
                return None;
            },
        };
        if !(pos < e && e < s.len()) {
            return None;
        }
        let ghost kv = (k@, v@);
        let ghost next = acc.push(kv);
        proof {
            lemma_parse_meta_extends(s@, e + 1, next);
            if let Some((mm, q)) = parse_meta_entries(s@, start as int, seq![]) {
                if s@[e as int] == COMMA {
                    assert(mm.subrange(0, next.len() as int)[acc.len() as int] == kv);
                } else if s@[e as int] == CLOSE_BRACE {
                    assert(mm == next);
                }
                assert(mm[acc.len() as int] == kv);
            }
            assert(parse_meta_entries(s@, start as int, seq![]) matches Some((mm, q)) ==> mm.len()
                > acc.len() && mm[acc.len() as int] == kv);
        }
        let ks = match string_from_utf8(k) {
            Some(x) => x,
            None => {
                proof {
                    if let Some((mm, q)) = parse_meta_entries(s@, start as int, seq![]) {
                        assert(!valid_utf8(mm[acc.len() as int].0));
                    }
                }
                return None;
            },
        };
        let vs = match string_from_utf8(v) {
            Some(x) => x,
            None => {
                proof {
                    if let Some((mm, q)) = parse_meta_entries(s@, start as int, seq![]) {
                        let i = acc.len() as int;
                        assert(!(valid_utf8(mm[i].0) && valid_utf8(mm[i].1)));
                        assert(0 <= i < mm.len());
                        if all_valid(mm) {
                            assert(valid_utf8(mm[i].0) && valid_utf8(mm[i].1));
                        }
                    }
                }
                return None;
            },
        };
        let ghost old_out = out@;
        let ghost old_acc = acc;
        assert(meta_view(old_out).len() == old_out.len());
        assert(decode_meta(old_acc).len() == old_acc.len());
        out.push((ks, vs));
        proof {
            acc = next;
            assert forall|i: int| 0 <= i < out@.len() implies #[trigger] meta_view(out@)[i] == decode_meta(acc)[i] by {
                if i < old_out.len() {
                    assert(out@[i] == old_out[i]);
                    assert(acc[i] == old_acc[i]);
                    assert(meta_view(old_out)[i] == decode_meta(old_acc)[i]);
                }
            }
            assert(meta_view(out@) =~= decode_meta(acc));
            assert forall|i: int| 0 <= i < acc.len() implies #[trigger] valid_utf8(acc[i].0) && valid_utf8(acc[i].1) by {
                if i < old_acc.len() {
                    assert(acc[i] == old_acc[i]);
                }
            }
        }
        if s[e] == COMMA {
            pos = e + 1;
        } else if s[e] == CLOSE_BRACE {
            return Some((out, e + 1));
        } else {
            return None;
        }
    }
}

fn decode_written_error(body: &[u8]) -> (r: Option<TwirpErrorResponse>)
    ensures
        well_formed_error(body@) ==> (r matches Some(e) && (e.code, e.msg@) == decoded_error(body@)
            && meta_view(e.meta@) == decoded_meta(body@)),
        !well_formed_error(body@) ==> r is None,
{
    let a: usize = "{\"code\":".as_bytes().len();
    if !(starts_at(body, 0, "{\"code\":".as_bytes()) && a < body.len() && body[a] == QUOTE) {
        return None;
    }
    let (name, j) = match read_quoted(body, a + 1) {
        Some(p) => p,
        None => {
            return None;
        },
    };
    let code = match code_from_name(name.as_slice()) {
        Some(c) => c,
        None => {
            return None;
        },
    };
    let lm = ",\"msg\":".as_bytes();
    if !starts_at(body, j, lm) {
        return None;
    }
    let b: usize = j + lm.len();
    if !(b < body.len() && body[b] == QUOTE) {
        return None;
    }
    let (m, k) = match read_quoted(body, b + 1) {
        Some(p) => p,
        None => {
            return None;
        },
    };
    let meta: Vec<(String, String)> = if k < body.len() && k + 1 == body.len() && body[k] == CLOSE_BRACE {
        Vec::new()
    } else {
        let lp = ",\"meta\":{".as_bytes();
        if !starts_at(body, k, lp) {
            return None;
        }
        let p: usize = k + lp.len();
        if body.len() - p == 2 && body[p] == CLOSE_BRACE && body[p + 1] == CLOSE_BRACE {
            Vec::new()
        } else {
            match read_meta_entries(body, p) {
                Some((v, q)) => if q < body.len() && q + 1 == body.len() && body[q] == CLOSE_BRACE {
                    v
                } else {
                    return None;
                },
                None => {
                    return None;
                },
            }
        }
    };
    match string_from_utf8(m) {
        Some(msg) => Some(TwirpErrorResponse { code, msg, meta }),
        None => None,
    }
}

/// Reads an error body. This never fails: a body that is neither the written layout nor
/// a JSON object with a known `code` gives an internal error that carries the body's
/// text as its message.
pub fn decode_error_body(body: &[u8]) -> (r: TwirpErrorResponse)
    ensures
        (r.code, r.msg@) == decoded_error(body@),
        meta_view(r.meta@) == decoded_meta(body@),
{
    if let Some(e) = decode_written_error(body) {
        return e;
    }
    let fallback = TwirpErrorResponse { code: TwirpErrorCode::Internal, msg: string_from_utf8_lossy(body), meta: Vec::new() };
    assert(meta_view(fallback.meta@) =~= Seq::<(Seq<char>, Seq<char>)>::empty());
    let v = match read_json_object(body) {
        Some(v) => v,
        None => {
            return fallback;
        },
    };
    let ghost m = json_object_members(body@).unwrap();
    let cn = match find_member(&v, "code", Ghost(m)) {
        Some(Some(s)) => s,
        _ => {
            return fallback;
        },
    };
    let code = match code_from_name(cn.as_str().as_bytes()) {
        Some(c) => c,
        None => {
            return fallback;
        },
    };
    let msg = match find_member(&v, "msg", Ghost(m)) {
        Some(Some(s)) => s,
        Some(None) => {
            return fallback;
        },
        None => String::new(),
    };
    let r = TwirpErrorResponse { code, msg, meta: Vec::new() };
    assert(meta_view(r.meta@) =~= Seq::<(Seq<char>, Seq<char>)>::empty());
    r
}

/// An error envelope of code `Canceled` with the given message.
pub fn canceled(msg: &str) -> (r: TwirpErrorResponse)
    ensures
        r.code == TwirpErrorCode::Canceled,
        r.msg@ == msg@,
        r.meta@.len() == 0,
        r.wf(),
{
    TwirpErrorResponse::new(TwirpErrorCode::Canceled, msg)
}

/// An error envelope of code `Unknown` with the given message.
pub fn unknown(msg: &str) -> (r: TwirpErrorResponse)
    ensures
        r.code == TwirpErrorCode::Unknown,
        r.msg@ == msg@,
        r.meta@.len() == 0,
        r.wf(),
{
    TwirpErrorResponse::new(TwirpErrorCode::Unknown, msg)
}

/// An error envelope of code `InvalidArgument` with the given message.
pub fn invalid_argument(msg: &str) -> (r: TwirpErrorResponse)
    ensures
        r.code == TwirpErrorCode::InvalidArgument,
        r.msg@ == msg@,
        r.meta@.len() == 0,
        r.wf(),
{
    TwirpErrorResponse::new(TwirpErrorCode::InvalidArgument, msg)
}

/// An error envelope of code `NotFound` with the given message.
pub fn not_found(msg: &str) -> (r: TwirpErrorResponse)
    ensures
        r.code == TwirpErrorCode::NotFound,
        r.msg@ == msg@,
        r.meta@.len() == 0,
        r.wf(),
{
    TwirpErrorResponse::new(TwirpErrorCode::NotFound, msg)
}

/// An error envelope of code `AlreadyExists` with the given message.
pub fn already_exists(msg: &str) -> (r: TwirpErrorResponse)
    ensures
        r.code == TwirpErrorCode::AlreadyExists,
        r.msg@ == msg@,
        r.meta@.len() == 0,
        r.wf(),
{
    TwirpErrorResponse::new(TwirpErrorCode::AlreadyExists, msg)
}

/// An error envelope of code `PermissionDenied` with the given message.
pub fn permission_denied(msg: &str) -> (r: TwirpErrorResponse)
    ensures
        r.code == TwirpErrorCode::PermissionDenied,
        r.msg@ == msg@,
        r.meta@.len() == 0,
        r.wf(),
{
    TwirpErrorResponse::new(TwirpErrorCode::PermissionDenied, msg)
}

/// An error envelope of code `Unauthenticated` with the given message.
pub fn unauthenticated(msg: &str) -> (r: TwirpErrorResponse)
    ensures
        r.code == TwirpErrorCode::Unauthenticated,
        r.msg@ == msg@,
        r.meta@.len() == 0,
        r.wf(),
{
    TwirpErrorResponse::new(TwirpErrorCode::Unauthenticated, msg)
}

/// An error envelope of code `ResourceExhausted` with the given message.
pub fn resource_exhausted(msg: &str) -> (r: TwirpErrorResponse)
    ensures
        r.code == TwirpErrorCode::ResourceExhausted,
        r.msg@ == msg@,
        r.meta@.len() == 0,
        r.wf(),
{
    TwirpErrorResponse::new(TwirpErrorCode::ResourceExhausted, msg)
}

/// An error envelope of code `FailedPrecondition` with the given message.
pub fn failed_precondition(msg: &str) -> (r: TwirpErrorResponse)
    ensures
        r.code == TwirpErrorCode::FailedPrecondition,
        r.msg@ == msg@,
        r.meta@.len() == 0,
        r.wf(),
{
    TwirpErrorResponse::new(TwirpErrorCode::FailedPrecondition, msg)
}

/// An error envelope of code `Aborted` with the given message.
pub fn aborted(msg: &str) -> (r: TwirpErrorResponse)
    ensures
        r.code == TwirpErrorCode::Aborted,
        r.msg@ == msg@,
        r.meta@.len() == 0,
        r.wf(),
{
    TwirpErrorResponse::new(TwirpErrorCode::Aborted, msg)
}

/// An error envelope of code `OutOfRange` with the given message.
pub fn out_of_range(msg: &str) -> (r: TwirpErrorResponse)
    ensures
        r.code == TwirpErrorCode::OutOfRange,
        r.msg@ == msg@,
        r.meta@.len() == 0,
        r.wf(),
{
    TwirpErrorResponse::new(TwirpErrorCode::OutOfRange, msg)
}

/// An error envelope of code `Unimplemented` with the given message.
pub fn unimplemented(msg: &str) -> (r: TwirpErrorResponse)
    ensures
        r.code == TwirpErrorCode::Unimplemented,
        r.msg@ == msg@,
        r.meta@.len() == 0,
        r.wf(),
{
    TwirpErrorResponse::new(TwirpErrorCode::Unimplemented, msg)
}

/// An error envelope of code `Internal` with the given message.
pub fn internal(msg: &str) -> (r: TwirpErrorResponse)
    ensures
        r.code == TwirpErrorCode::Internal,
        r.msg@ == msg@,
        r.meta@.len() == 0,
        r.wf(),
{
    TwirpErrorResponse::new(TwirpErrorCode::Internal, msg)
}

/// An error envelope of code `Unavailable` with the given message.
pub fn unavailable(msg: &str) -> (r: TwirpErrorResponse)
    ensures
        r.code == TwirpErrorCode::Unavailable,
        r.msg@ == msg@,
        r.meta@.len() == 0,
        r.wf(),
{
    TwirpErrorResponse::new(TwirpErrorCode::Unavailable, msg)
}

/// An error envelope of code `DataLoss` with the given message.
pub fn dataloss(msg: &str) -> (r: TwirpErrorResponse)
    ensures
        r.code == TwirpErrorCode::DataLoss,
        r.msg@ == msg@,
        r.meta@.len() == 0,
        r.wf(),
{
    TwirpErrorResponse::new(TwirpErrorCode::DataLoss, msg)
}

} // verus!
