use vstd::prelude::*;

verus! {

// ---------------------------------------------------------------------------
// Byte-string constants of the upgrade handshake.
// ---------------------------------------------------------------------------
pub open spec fn bytes_get() -> Seq<u8> {
    seq![71u8, 69u8, 84u8]
}

pub open spec fn bytes_connection() -> Seq<u8> {
    seq![67u8, 111u8, 110u8, 110u8, 101u8, 99u8, 116u8, 105u8, 111u8, 110u8]
}

pub open spec fn bytes_upgrade() -> Seq<u8> {
    seq![85u8, 112u8, 103u8, 114u8, 97u8, 100u8, 101u8]
}

pub open spec fn bytes_upgrade_lower() -> Seq<u8> {
    seq![117u8, 112u8, 103u8, 114u8, 97u8, 100u8, 101u8]
}

pub open spec fn bytes_websocket() -> Seq<u8> {
    seq![119u8, 101u8, 98u8, 115u8, 111u8, 99u8, 107u8, 101u8, 116u8]
}

pub open spec fn bytes_sec_version() -> Seq<u8> {
    seq![83u8, 101u8, 99u8, 45u8, 87u8, 101u8, 98u8, 83u8, 111u8, 99u8, 107u8, 101u8, 116u8, 45u8, 86u8, 101u8, 114u8, 115u8, 105u8, 111u8, 110u8]
}

pub open spec fn bytes_13() -> Seq<u8> {
    seq![49u8, 51u8]
}

pub open spec fn bytes_sec_key() -> Seq<u8> {
    seq![83u8, 101u8, 99u8, 45u8, 87u8, 101u8, 98u8, 83u8, 111u8, 99u8, 107u8, 101u8, 116u8, 45u8, 75u8, 101u8, 121u8]
}

/// The fixed GUID every accept token is salted with.
pub open spec fn guid_bytes() -> Seq<u8> {
    seq![50u8, 53u8, 56u8, 69u8, 65u8, 70u8, 65u8, 53u8, 45u8, 69u8, 57u8, 49u8, 52u8, 45u8, 52u8, 55u8, 68u8, 65u8, 45u8, 57u8, 53u8, 67u8, 65u8, 45u8, 67u8, 53u8, 65u8, 66u8, 48u8, 68u8, 67u8, 56u8, 53u8, 66u8, 49u8, 49u8]
}

fn guid_vec() -> (r: Vec<u8>)
    ensures
        r@ == guid_bytes(),
{
    let mut g: Vec<u8> = Vec::new();
    g.push(50);
    g.push(53);
    g.push(56);
    g.push(69);
    g.push(65);
    g.push(70);
    g.push(65);
    g.push(53);
    g.push(45);
    g.push(69);
    g.push(57);
    g.push(49);
    g.push(52);
    g.push(45);
    g.push(52);
    g.push(55);
    g.push(68);
    g.push(65);
    g.push(45);
    g.push(57);
    g.push(53);
    g.push(67);
    g.push(65);
    g.push(45);
    g.push(67);
    g.push(53);
    g.push(65);
    g.push(66);
    g.push(48);
    g.push(68);
    g.push(67);
    g.push(56);
    g.push(53);
    g.push(66);
    g.push(49);
    g.push(49);
    proof {
        assert(g@ =~= guid_bytes());
    }
    g
}

// ---------------------------------------------------------------------------
// Case-insensitive ASCII comparison and header lookup.
// ---------------------------------------------------------------------------
pub open spec fn ascii_lower_byte(b: u8) -> u8 {
    if 65 <= b && b <= 90 {
        (b + 32) as u8
    } else {
        b
    }
}

pub open spec fn ascii_eq_ignore_case(a: Seq<u8>, b: Seq<u8>) -> bool {
    a.len() == b.len() && (forall|i: int|
        0 <= i < a.len() ==> ascii_lower_byte(#[trigger] a[i]) == ascii_lower_byte(b[i]))
}

fn ascii_lower_exec(b: u8) -> (r: u8)
    ensures
        r == ascii_lower_byte(b),
{
    if 65 <= b && b <= 90 {
        b + 32
    } else {
        b
    }
}

fn ascii_eq_ignore_case_exec(a: &Vec<u8>, b: &Vec<u8>) -> (r: bool)
    ensures
        r == ascii_eq_ignore_case(a@, b@),
{
    if a.len() != b.len() {
        return false;
    }
    let mut i: usize = 0;
    while i < a.len()
        invariant
            i <= a@.len(),
            a@.len() == b@.len(),
            forall|k: int|
                0 <= k < i ==> ascii_lower_byte(#[trigger] a@[k]) == ascii_lower_byte(b@[k]),
        decreases a@.len() - i,
    {
        if ascii_lower_exec(a[i]) != ascii_lower_exec(b[i]) {
            return false;
        }
        i += 1;
    }
    true
}

fn bytes_eq(a: &Vec<u8>, b: &Vec<u8>) -> (r: bool)
    ensures
        r == (a@ == b@),
{
    if a.len() != b.len() {
        return false;
    }
    let mut i: usize = 0;
    while i < a.len()
        invariant
            i <= a@.len(),
            a@.len() == b@.len(),
            forall|k: int| 0 <= k < i ==> a@[k] == b@[k],
        decreases a@.len() - i,
    {
        if a[i] != b[i] {
            return false;
        }
        i += 1;
    }
    proof {
        assert(a@ =~= b@);
    }
    true
}

/// The value of the first header whose name matches case-insensitively.
pub open spec fn header_lookup(hs: Seq<(Seq<u8>, Seq<u8>)>, name: Seq<u8>) -> Option<Seq<u8>>
    decreases hs.len(),
{
    if hs.len() == 0 {
        None
    } else if ascii_eq_ignore_case(hs[0].0, name) {
        Some(hs[0].1)
    } else {
        header_lookup(hs.skip(1), name)
    }
}

proof fn lemma_header_lookup_found(hs: Seq<(Seq<u8>, Seq<u8>)>, name: Seq<u8>, i: int)
    requires
        0 <= i < hs.len(),
        ascii_eq_ignore_case(hs[i].0, name),
        forall|k: int| 0 <= k < i ==> !ascii_eq_ignore_case(#[trigger] hs[k].0, name),
    ensures
        header_lookup(hs, name) == Some(hs[i].1),
    decreases i,
{
    if i > 0 {
        assert(hs.skip(1)[i - 1] == hs[i]);
        assert(forall|k: int|
            0 <= k < i - 1 ==> #[trigger] hs.skip(1)[k] == hs[k + 1]);
        lemma_header_lookup_found(hs.skip(1), name, i - 1);
    }
}

proof fn lemma_header_lookup_missing(hs: Seq<(Seq<u8>, Seq<u8>)>, name: Seq<u8>)
    requires
        forall|k: int| 0 <= k < hs.len() ==> !ascii_eq_ignore_case(#[trigger] hs[k].0, name),
    ensures
        header_lookup(hs, name) is None,
    decreases hs.len(),
{
    if hs.len() > 0 {
        assert(forall|k: int|
            0 <= k < hs.len() - 1 ==> #[trigger] hs.skip(1)[k] == hs[k + 1]);
        lemma_header_lookup_missing(hs.skip(1), name);
    }
}

// ---------------------------------------------------------------------------
// The Connection header's token list.
// ---------------------------------------------------------------------------
pub open spec fn is_sep(b: u8) -> bool {
    b == 32 || b == 44
}

/// Splitting the value on spaces and commas yields a token that equals
/// "Upgrade" case-insensitively.
pub open spec fn has_upgrade_token(v: Seq<u8>) -> bool {
    exists|i: int|
        0 <= i && i + 7 <= v.len() && (i == 0 || is_sep(v[i - 1])) && (i + 7 == v.len() || is_sep(
            v[i + 7],
        )) && ascii_eq_ignore_case(#[trigger] v.subrange(i, i + 7), bytes_upgrade_lower())
}

fn upgrade_lower_vec() -> (r: Vec<u8>)
    ensures
        r@ == bytes_upgrade_lower(),
{
    let mut g: Vec<u8> = Vec::new();
    g.push(117);
    g.push(112);
    g.push(103);
    g.push(114);
    g.push(97);
    g.push(100);
    g.push(101);
    proof {
        assert(g@ =~= bytes_upgrade_lower());
    }
    g
}

fn has_upgrade_token_exec(v: &Vec<u8>) -> (r: bool)
    ensures
        r == has_upgrade_token(v@),
{
    let word = upgrade_lower_vec();
    let n = v.len();
    if n < 7 {
        return false;
    }
    let mut i: usize = 0;
    while i <= n - 7
        invariant
            word@ == bytes_upgrade_lower(),
            n == v@.len(),
            n >= 7,
            i <= n - 7 + 1,
            forall|k: int|
                0 <= k < i ==> !((k == 0 || is_sep(v@[k - 1])) && (k + 7 == v@.len() || is_sep(
                    v@[k + 7],
                )) && ascii_eq_ignore_case(#[trigger] v@.subrange(k, k + 7), bytes_upgrade_lower())),
        decreases v@.len() - i,
    {
        let left_ok = i == 0 || {
            let b = v[i - 1];
            b == 32 || b == 44
        };
        let right_ok = i + 7 == n || {
            let b = v[i + 7];
            b == 32 || b == 44
        };
        if left_ok && right_ok {
            let mut token: Vec<u8> = Vec::new();
            let mut j: usize = 0;
            while j < 7
                invariant
                    n == v@.len(),
                    i + 7 <= n,
                    j <= 7,
                    token@ == v@.subrange(i as int, i + j),
                decreases 7 - j,
            {
                token.push(v[i + j]);
                j += 1;
                proof {
                    assert(token@ =~= v@.subrange(i as int, i + j));
                }
            }
            if ascii_eq_ignore_case_exec(&token, &word) {
                proof {
                    assert(has_upgrade_token(v@));
                }
                return true;
            }
        }
        i += 1;
    }
    proof {
        assert forall|k: int|
            0 <= k && k + 7 <= v@.len() && (k == 0 || is_sep(v@[k - 1])) && (k + 7 == v@.len()
                || is_sep(v@[k + 7])) implies !ascii_eq_ignore_case(
            #[trigger] v@.subrange(k, k + 7),
            bytes_upgrade_lower(),
        ) by {
            assert(k < i);
        }
    }
    false
}

// ---------------------------------------------------------------------------
// The request and response models of the handshake.
// ---------------------------------------------------------------------------
/// What the upgrade logic reads of an HTTP request: its method and its
/// headers as name/value byte strings, in order.
pub struct UpgradeRequest {
    pub method: Vec<u8>,
    pub headers: Vec<(Vec<u8>, Vec<u8>)>,
}

impl UpgradeRequest {
    pub open spec fn headers_view(self) -> Seq<(Seq<u8>, Seq<u8>)> {
        Seq::new(self.headers@.len(), |i: int| (self.headers@[i].0@, self.headers@[i].1@))
    }
}

/// What the upgrade logic decides of the response: the Sec-WebSocket-Accept
/// value.  The status (101) and the fixed Connection/Upgrade headers are
/// presentation.
pub struct UpgradeResponse {
    pub accept: Vec<u8>,
}

/// The handshake judgment: a GET whose Connection tokens include "Upgrade",
/// whose Upgrade header is "websocket", whose version is 13, and which
/// carries a key.
pub open spec fn is_upgrade_request_spec(method: Seq<u8>, hs: Seq<(Seq<u8>, Seq<u8>)>) -> bool {
    &&& method == bytes_get()
    &&& match header_lookup(hs, bytes_connection()) {
        Some(v) => has_upgrade_token(v),
        None => false,
    }
    &&& match header_lookup(hs, bytes_upgrade()) {
        Some(v) => ascii_eq_ignore_case(v, bytes_websocket()),
        None => false,
    }
    &&& header_lookup(hs, bytes_sec_version()) == Some(bytes_13())
    &&& header_lookup(hs, bytes_sec_key()) is Some
}

fn find_header(headers: &Vec<(Vec<u8>, Vec<u8>)>, name: &Vec<u8>) -> (r: Option<usize>)
    ensures
        match r {
            Some(i) => i < headers@.len() && ascii_eq_ignore_case(headers@[i as int].0@, name@)
                && (forall|k: int|
                0 <= k < i ==> !ascii_eq_ignore_case(#[trigger] headers@[k].0@, name@)),
            None => forall|k: int|
                0 <= k < headers@.len() ==> !ascii_eq_ignore_case(#[trigger] headers@[k].0@, name@),
        },
{
    let mut i: usize = 0;
    while i < headers.len()
        invariant
            i <= headers@.len(),
            forall|k: int|
                0 <= k < i ==> !ascii_eq_ignore_case(#[trigger] headers@[k].0@, name@),
        decreases headers@.len() - i,
    {
        if ascii_eq_ignore_case_exec(&headers[i].0, name) {
            return Some(i);
        }
        i += 1;
    }
    None
}

fn lookup_header(request: &UpgradeRequest, name: &Vec<u8>) -> (r: Option<usize>)
    ensures
        match r {
            Some(i) => i < request.headers@.len() && header_lookup(
                request.headers_view(),
                name@,
            ) == Some(request.headers@[i as int].1@),
            None => header_lookup(request.headers_view(), name@) is None,
        },
{
    let r = find_header(&request.headers, name);
    proof {
        let hs = request.headers_view();
        match r {
            Some(i) => {
                assert(forall|k: int|
                    0 <= k < hs.len() ==> #[trigger] hs[k] == (request.headers@[k].0@,
                    request.headers@[k].1@));
                lemma_header_lookup_found(hs, name@, i as int);
            },
            None => {
                assert(forall|k: int|
                    0 <= k < hs.len() ==> #[trigger] hs[k] == (request.headers@[k].0@,
                    request.headers@[k].1@));
                lemma_header_lookup_missing(hs, name@);
            },
        }
    }
    r
}

/// Whether the request asks for the WebSocket upgrade.
pub fn is_upgrade_request(request: &UpgradeRequest) -> (r: bool)
    ensures
        r == is_upgrade_request_spec(request.method@, request.headers_view()),
{
    let mut get: Vec<u8> = Vec::new();
    get.push(71);
    get.push(69);
    get.push(84);
    proof {
        assert(get@ =~= bytes_get());
    }
    if !bytes_eq(&request.method, &get) {
        return false;
    }
    let mut conn_name: Vec<u8> = Vec::new();
    conn_name.push(67);
    conn_name.push(111);
    conn_name.push(110);
    conn_name.push(110);
    conn_name.push(101);
    conn_name.push(99);
    conn_name.push(116);
    conn_name.push(105);
    conn_name.push(111);
    conn_name.push(110);
    proof {
        assert(conn_name@ =~= bytes_connection());
    }
    let conn_ok = match lookup_header(request, &conn_name) {
        Some(i) => has_upgrade_token_exec(&request.headers[i].1),
        None => false,
    };
    if !conn_ok {
        return false;
    }
    let mut upg_name: Vec<u8> = Vec::new();
    upg_name.push(85);
    upg_name.push(112);
    upg_name.push(103);
    upg_name.push(114);
    upg_name.push(97);
    upg_name.push(100);
    upg_name.push(101);
    proof {
        assert(upg_name@ =~= bytes_upgrade());
    }
    let mut ws: Vec<u8> = Vec::new();
    ws.push(119);
    ws.push(101);
    ws.push(98);
    ws.push(115);
    ws.push(111);
    ws.push(99);
    ws.push(107);
    ws.push(101);
    ws.push(116);
    proof {
        assert(ws@ =~= bytes_websocket());
    }
    let upg_ok = match lookup_header(request, &upg_name) {
        Some(i) => ascii_eq_ignore_case_exec(&request.headers[i].1, &ws),
        None => false,
    };
    if !upg_ok {
        return false;
    }
    let mut ver_name: Vec<u8> = Vec::new();
    ver_name.push(83);
    ver_name.push(101);
    ver_name.push(99);
    ver_name.push(45);
    ver_name.push(87);
    ver_name.push(101);
    ver_name.push(98);
    ver_name.push(83);
    ver_name.push(111);
    ver_name.push(99);
    ver_name.push(107);
    ver_name.push(101);
    ver_name.push(116);
    ver_name.push(45);
    ver_name.push(86);
    ver_name.push(101);
    ver_name.push(114);
    ver_name.push(115);
    ver_name.push(105);
    ver_name.push(111);
    ver_name.push(110);
    proof {
        assert(ver_name@ =~= bytes_sec_version());
    }
    let mut thirteen: Vec<u8> = Vec::new();
    thirteen.push(49);
    thirteen.push(51);
    proof {
        assert(thirteen@ =~= bytes_13());
    }
    let ver_ok = match lookup_header(request, &ver_name) {
        Some(i) => bytes_eq(&request.headers[i].1, &thirteen),
        None => false,
    };
    if !ver_ok {
        return false;
    }
    let mut key_name: Vec<u8> = Vec::new();
    key_name.push(83);
    key_name.push(101);
    key_name.push(99);
    key_name.push(45);
    key_name.push(87);
    key_name.push(101);
    key_name.push(98);
    key_name.push(83);
    key_name.push(111);
    key_name.push(99);
    key_name.push(107);
    key_name.push(101);
    key_name.push(116);
    key_name.push(45);
    key_name.push(75);
    key_name.push(101);
    key_name.push(121);
    proof {
        assert(key_name@ =~= bytes_sec_key());
    }
    match lookup_header(request, &key_name) {
        Some(_) => true,
        None => false,
    }
}

// ---------------------------------------------------------------------------
// The accept token: SHA-1 then base64.
// ---------------------------------------------------------------------------
/// The SHA-1 digest of a byte sequence; a function of the bytes alone.
pub uninterp spec fn sha1_of(data: Seq<u8>) -> Seq<u8>;

/// The base64 character (as an ASCII byte) of a 6-bit value.
pub open spec fn b64_char(v: u8) -> u8 {
    if v < 26 {
        (v + 65) as u8
    } else if v < 52 {
        (v + 71) as u8
    } else if v < 62 {
        (v - 4) as u8
    } else if v == 62 {
        43
    } else {
        47
    }
}

/// Standard base64 with '=' padding, as ASCII bytes.
pub open spec fn base64_of(s: Seq<u8>) -> Seq<u8>
    decreases s.len(),
{
    if s.len() == 0 {
        Seq::empty()
    } else if s.len() == 1 {
        seq![
            b64_char(s[0] >> 2),
            b64_char(((s[0] & 3) << 4) as u8),
            61u8,
            61u8,
        ]
    } else if s.len() == 2 {
        seq![
            b64_char(s[0] >> 2),
            b64_char((((s[0] & 3) << 4) | (s[1] >> 4)) as u8),
            b64_char(((s[1] & 15) << 2) as u8),
            61u8,
        ]
    } else {
        seq![
            b64_char(s[0] >> 2),
            b64_char((((s[0] & 3) << 4) | (s[1] >> 4)) as u8),
            b64_char(((((s[1] & 15) << 2) as u8) | (s[2] >> 6)) as u8),
            b64_char((s[2] & 63) as u8),
        ] + base64_of(s.skip(3))
    }
}

/// Relies on ring::digest::digest with SHA1_FOR_LEGACY_USE_ONLY: the 20-byte
/// SHA-1 digest of the input, a function of the input bytes alone.
#[verifier::external_body]
fn sha1_digest(data: &Vec<u8>) -> (r: Vec<u8>)
    ensures
        r@ == sha1_of(data@),
        r@.len() == 20,
{
    ring::digest::digest(&ring::digest::SHA1_FOR_LEGACY_USE_ONLY, data.as_slice())
        .as_ref()
        .to_vec()
}

/// Relies on base64::encode: the standard alphabet with '=' padding.
#[verifier::external_body]
fn base64_encode(data: &Vec<u8>) -> (r: Vec<u8>)
    ensures
        r@ == base64_of(data@),
{
    base64::encode(data.as_slice()).into_bytes()
}

/// The Sec-WebSocket-Accept value for a challenge key: base64 of the SHA-1
/// of the key followed by the fixed GUID.
pub fn upgrade_challenge_response(challenge: &Vec<u8>) -> (r: Vec<u8>)
    ensures
        r@ == base64_of(sha1_of(challenge@ + guid_bytes())),
{
    let mut data: Vec<u8> = Vec::new();
    data.extend_from_slice(challenge.as_slice());
    let guid = guid_vec();
    data.extend_from_slice(guid.as_slice());
    proof {
        assert(data@ =~= challenge@ + guid_bytes());
    }
    let digest = sha1_digest(&data);
    base64_encode(&digest)
}

/// Answer an upgrade request, or refuse a request that is none.
pub fn upgrade_response(request: &UpgradeRequest) -> (r: Option<UpgradeResponse>)
    ensures
        r is Some == is_upgrade_request_spec(request.method@, request.headers_view()),
        r is Some ==> r->0.accept@ == base64_of(
            sha1_of(
                header_lookup(request.headers_view(), bytes_sec_key())->0 + guid_bytes(),
            ),
        ),
{
    if !is_upgrade_request(request) {
        return None;
    }
    let mut key_name: Vec<u8> = Vec::new();
    key_name.push(83);
    key_name.push(101);
    key_name.push(99);
    key_name.push(45);
    key_name.push(87);
    key_name.push(101);
    key_name.push(98);
    key_name.push(83);
    key_name.push(111);
    key_name.push(99);
    key_name.push(107);
    key_name.push(101);
    key_name.push(116);
    key_name.push(45);
    key_name.push(75);
    key_name.push(101);
    key_name.push(121);
    proof {
        assert(key_name@ =~= bytes_sec_key());
    }
    match lookup_header(request, &key_name) {
        Some(i) => {
            let accept = upgrade_challenge_response(&request.headers[i].1);
            Some(UpgradeResponse { accept })
        },
        None => {
            proof {
                assert(false);
            }
            None
        },
    }
}

} // verus!
