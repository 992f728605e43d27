//! Opening a CQL connection to a Scylla shard: the frames sent during the handshake, the checks
//! of the frames received, the shard that the server reports, and the choice of retrying until
//! the connection lands on the wanted shard.
use cdrs::frame::traits::FromCursor;
use cdrs::frame::IntoBytes;
use vstd::prelude::*;
use vstd::string::StrSliceExecFns;

verus! {

#[verifier::external_type_specification]
#[verifier::external_body]
pub struct ExBodyResSupported(cdrs::frame::frame_supported::BodyResSupported);

/// The address of a node.
pub type Address = String;
/// A token of the ring.
pub type Token = i64;
/// The identifier of a node.
pub type NodeId = [u8; 5];
/// The name of a data center.
pub type DC = String;
/// The number of high bits of a token that sharding ignores.
pub type Msb = u8;
/// The number of shards of a node.
pub type ShardCount = u16;
/// The tokens of the ring, each with its node, data center, ignored high bits and shard count.
pub type Tokens = Vec<(Token, NodeId, DC, Msb, ShardCount)>;

/// The length of a frame header.
pub const HEADER_LEN: usize = 9;

/// A CQL connection to one shard of a node.
pub struct CqlConn {
    stream: Option<tokio::net::TcpStream>,
    tokens: Option<Tokens>,
    shard_id: u8,
    shard_count: ShardCount,
    msb: Msb,
}

/// What a node reports of its sharding in its `SUPPORTED` frame.
#[derive(Clone, Copy, Debug, PartialEq, Eq, Structural)]
pub struct ShardInfo {
    /// The shard that the connection landed on (`SCYLLA_SHARD`).
    pub shard: u8,
    /// The number of shards of the node (`SCYLLA_NR_SHARDS`).
    pub nr_shards: ShardCount,
    /// The number of high bits that sharding ignores (`SCYLLA_SHARDING_IGNORE_MSB`).
    pub ignore_msb: Msb,
}

/// What to do after opening a connection, when a given shard is wanted.
#[derive(Clone, Copy, Debug, PartialEq, Eq, Structural)]
pub enum ShardChoice {
    /// The connection is on the wanted shard: keep it.
    Keep,
    /// The node has no such shard: give up.
    NoSuchShard,
    /// Open another connection.
    Retry,
}

// ---------------------------------------------------------------------------------------
// The outside encoder and decoder.

/// The body of a `STARTUP` request without compression: a string map with one entry,
/// `CQL_VERSION` = `3.0.0`.
pub open spec fn startup_body() -> Seq<u8> {
    seq![0u8, 1, 0, 11, 67, 81, 76, 95, 86, 69, 82, 83, 73, 79, 78, 0, 5, 51, 46, 48, 46, 48]
}

/// `frame` is a protocol-4 request header with opcode `opcode` and a body of `body_len`
/// bytes, whatever its stream identifier.
pub open spec fn request_header(frame: Seq<u8>, opcode: u8, body_len: u8) -> bool {
    &&& frame.len() >= 9
    &&& frame[0] == 4
    &&& frame[1] == 0
    &&& frame[4] == opcode
    &&& frame[5] == 0
    &&& frame[6] == 0
    &&& frame[7] == 0
    &&& frame[8] == body_len
}

/// The bytes of a `STARTUP` request without compression:
/// `cdrs::frame::Frame::new_req_startup(None)` encoded by `IntoBytes::into_cbytes`.
/// Claimed from the source: a version-4 request header with no flags, opcode `STARTUP` and a
/// 22-byte body, then [`startup_body`]. The stream identifier is random and is left unsaid.
#[verifier::external_body]
fn startup_request() -> (r: Vec<u8>)
    ensures
        r@.len() == 31,
        request_header(r@, 1, 22),
        r@.subrange(9, 31) == startup_body(),
{
    cdrs::frame::Frame::new_req_startup(None).into_cbytes()
}

/// The bytes of an `OPTIONS` request: `cdrs::frame::Frame::new_req_options()` encoded by
/// `IntoBytes::into_cbytes`. Claimed from the source: a version-4 request header with no flags,
/// opcode `OPTIONS` and an empty body. The stream identifier is random and is left unsaid.
#[verifier::external_body]
fn options_request() -> (r: Vec<u8>)
    ensures
        r@.len() == 9,
        request_header(r@, 5, 0),
{
    cdrs::frame::Frame::new_req_options().into_cbytes()
}

/// The bytes that `cdrs::frame::Opcode::from` maps to an opcode; it panics on the others.
pub open spec fn is_opcode(b: u8) -> bool {
    b <= 0x10 && b != 0x04
}

/// Whether the byte `b` is one that the opcode decoder knows.
pub fn is_known_opcode(b: u8) -> (r: bool)
    ensures
        r == is_opcode(b),
{
    b <= 0x10 && b != 0x04
}

/// Why opening a connection to a shard failed.
#[derive(Clone, Copy, Debug, PartialEq, Eq, Structural)]
pub enum ConnectFailure {
    /// The node did not answer `STARTUP` with `READY`.
    NotReady,
    /// The wanted shard does not exist on the node.
    NoSuchShard,
}

/// The text of the error for a failure.
pub open spec fn failure_text(f: ConnectFailure) -> Seq<char> {
    match f {
        ConnectFailure::NotReady => "CQL connection failed."@,
        ConnectFailure::NoSuchShard => "shard_id does not exist."@,
    }
}

/// The text of the error for a failure.
pub fn failure_message(f: ConnectFailure) -> (r: String)
    ensures
        r@ == failure_text(f),
{
    match f {
        ConnectFailure::NotReady => String::from_str("CQL connection failed."),
        ConnectFailure::NoSuchShard => String::from_str("shard_id does not exist."),
    }
}

/// Whether the opcode byte `b` is `READY`: `cdrs::frame::Opcode::from(b) == Opcode::Ready`.
/// Claimed from the source: `Ready` is the opcode of the byte 2 alone.
#[verifier::external_body]
fn opcode_is_ready(b: u8) -> (r: bool)
    requires
        is_opcode(b),
    ensures
        r == (b == 2),
{
    match cdrs::frame::Opcode::from(b) {
        cdrs::frame::Opcode::Ready => true,
        _ => false,
    }
}

/// The options that a `SUPPORTED` body decodes to, when it decodes.
pub uninterp spec fn decoded_supported(body: Seq<u8>) -> Option<Map<Seq<char>, Seq<Seq<char>>>>;

/// The options held by a decoded `SUPPORTED` body.
pub uninterp spec fn supported_options(options: cdrs::frame::frame_supported::BodyResSupported) -> Map<
    Seq<char>,
    Seq<Seq<char>>,
>;

/// Decodes a `SUPPORTED` body: `BodyResSupported::from_cursor` on a cursor over `body`, its
/// error dropped. Claimed: the decoding is a function of the bytes (named
/// [`decoded_supported`]); a body that decodes gives the options of that name.
#[verifier::external_body]
fn decode_supported(body: &[u8]) -> (r: Option<cdrs::frame::frame_supported::BodyResSupported>)
    ensures
        r is Some <==> decoded_supported(body@) is Some,
        r matches Some(o) ==> supported_options(o) == decoded_supported(body@).unwrap(),
{
    let mut cursor: std::io::Cursor<&[u8]> = std::io::Cursor::new(body);
    cdrs::frame::frame_supported::BodyResSupported::from_cursor(&mut cursor).ok()
}

/// The values of the option `key`: `HashMap::get` on the decoded options, cloned.
/// Claimed: present exactly when the options hold `key`, with its values in order.
#[verifier::external_body]
fn supported_values(options: &cdrs::frame::frame_supported::BodyResSupported, key: &str) -> (r:
    Option<Vec<String>>)
    ensures
        r is Some <==> supported_options(*options).contains_key(key@),
        r matches Some(v) ==> v@.map_values(|s: String| s@) == supported_options(*options)[key@],
{
    options.data.get(key).cloned()
}

// ---------------------------------------------------------------------------------------
// Decimal numbers, as `str::parse` reads unsigned integers.

/// The value of a sequence of decimal digits.
pub open spec fn digits_value(d: Seq<char>) -> nat
    decreases d.len(),
{
    if d.len() == 0 {
        0
    } else {
        digits_value(d.drop_last()) * 10 + (d.last() as nat - '0' as nat) as nat
    }
}

/// Every character is an ASCII digit.
pub open spec fn all_digits(d: Seq<char>) -> bool {
    forall|i: int| 0 <= i < d.len() ==> '0' <= #[trigger] d[i] <= '9'
}

/// The unsigned integer that `s` spells, when it is at most `max`: an optional `+` followed by
/// one or more decimal digits, nothing else.
pub open spec fn parse_unsigned(s: Seq<char>, max: nat) -> Option<nat> {
    let d = if s.len() > 0 && s[0] == '+' {
        s.drop_first()
    } else {
        s
    };
    if d.len() > 0 && all_digits(d) && digits_value(d) <= max {
        Some(digits_value(d))
    } else {
        None
    }
}

/// The character of the decimal digit `d`.
pub open spec fn digit_char(d: nat) -> char {
    if d == 0 {
        '0'
    } else if d == 1 {
        '1'
    } else if d == 2 {
        '2'
    } else if d == 3 {
        '3'
    } else if d == 4 {
        '4'
    } else if d == 5 {
        '5'
    } else if d == 6 {
        '6'
    } else if d == 7 {
        '7'
    } else if d == 8 {
        '8'
    } else {
        '9'
    }
}

/// The decimal notation of `n`, most significant digit first, without leading zeros.
pub open spec fn decimal(n: nat) -> Seq<char>
    decreases n,
{
    if n < 10 {
        seq![digit_char(n)]
    } else {
        decimal(n / 10).push(digit_char(n % 10))
    }
}

/// Each character `'0'` to `'9'` is a digit, worth its distance from `'0'`.
pub proof fn lemma_digit_chars(d: nat)
    requires
        d < 10,
    ensures
        all_digits(seq![digit_char(d)]),
        digits_value(seq![digit_char(d)]) == d,
        digit_char(d) as nat - '0' as nat == d,
{
    let s = seq![digit_char(d)];
    assert(s.drop_last() =~= Seq::<char>::empty());
    assert(digits_value(Seq::<char>::empty()) == 0);
    assert(s.last() == digit_char(d));
    assert(digits_value(s) == digits_value(s.drop_last()) * 10 + (s.last() as nat - '0' as nat) as nat);
}

/// Decimal notation reads back: the digits of any `n` up to `max` parse to `n`, and an optional
/// `+` in front changes nothing.
pub proof fn lemma_parse_decimal_notation(n: nat, max: nat)
    requires
        n <= max,
    ensures
        parse_unsigned(decimal(n), max) == Some(n),
        parse_unsigned(seq!['+'] + decimal(n), max) == Some(n),
{
    lemma_decimal(n);
    assert((seq!['+'] + decimal(n)).drop_first() =~= decimal(n));
}

/// Only decimal notation is accepted: a string that parses is one or more characters `'0'` to
/// `'9'`, after at most one leading `+`, and its value is at most `max`; a string with a leading
/// zero reads as the same number without it.
pub proof fn lemma_parse_accepts_only_decimal(s: Seq<char>, max: nat)
    ensures
        parse_unsigned(s, max) matches Some(v) ==> {
            &&& v <= max
            &&& s.len() > (if s[0] == '+' { 1int } else { 0int })
            &&& forall|i: int| 0 <= i < s.len() && !(i == 0 && s[i] == '+') ==> '0' <= #[trigger] s[i] <= '9'
        },
        s.len() > 0 && all_digits(s) ==> parse_unsigned(seq!['0'] + s, max) == parse_unsigned(s, max),
{
    if parse_unsigned(s, max) is Some {
        let d = if s.len() > 0 && s[0] == '+' { s.drop_first() } else { s };
        assert forall|i: int| 0 <= i < s.len() && !(i == 0 && s[i] == '+') implies '0' <= #[trigger] s[i] <= '9' by {
            if s.len() > 0 && s[0] == '+' {
                assert(s[i] == d[i - 1]);
            } else {
                assert(s[i] == d[i]);
            }
        }
    }
    if s.len() > 0 && all_digits(s) {
        lemma_leading_zero(s);
        let z = seq!['0'] + s;
        assert(z[0] == '0');
        assert(all_digits(z)) by {
            assert forall|i: int| 0 <= i < z.len() implies '0' <= #[trigger] z[i] <= '9' by {
                if i > 0 {
                    assert(z[i] == s[i - 1]);
                }
            }
        }
    }
}

proof fn lemma_leading_zero(s: Seq<char>)
    ensures
        digits_value(seq!['0'] + s) == digits_value(s),
    decreases s.len(),
{
    let z = seq!['0'] + s;
    if s.len() == 0 {
        assert(z.drop_last() =~= Seq::<char>::empty());
        assert(digits_value(Seq::<char>::empty()) == 0);
    } else {
        lemma_leading_zero(s.drop_last());
        assert(z.drop_last() =~= seq!['0'] + s.drop_last());
        assert(z.last() == s.last());
    }
}

proof fn lemma_decimal(n: nat)
    ensures
        decimal(n).len() > 0,
        all_digits(decimal(n)),
        digits_value(decimal(n)) == n,
        decimal(n)[0] != '+',
    decreases n,
{
    if n < 10 {
        lemma_digit_chars(n);
    } else {
        let q = n / 10;
        let r = n % 10;
        lemma_decimal(q);
        lemma_digit_chars(r);
        let s = decimal(n);
        assert(s == decimal(q).push(digit_char(r)));
        assert(s.drop_last() =~= decimal(q));
        assert(s.last() == digit_char(r));
        assert(all_digits(s)) by {
            assert forall|i: int| 0 <= i < s.len() implies '0' <= #[trigger] s[i] <= '9' by {
                if i < s.len() - 1 {
                    assert(s[i] == decimal(q)[i]);
                } else {
                    assert(all_digits(seq![digit_char(r)]));
                    assert(seq![digit_char(r)][0] == digit_char(r));
                }
            }
        }
        assert(s[0] == decimal(q)[0]);
        assert(n == q * 10 + r);
    }
}

/// A prefix of a digit sequence is worth no more than the whole.
proof fn lemma_digits_prefix(d: Seq<char>, k: int)
    requires
        all_digits(d),
        0 <= k <= d.len(),
    ensures
        digits_value(d.take(k)) <= digits_value(d),
    decreases d.len(),
{
    if k == d.len() {
        assert(d.take(k) =~= d);
    } else {
        let init = d.drop_last();
        assert(all_digits(init)) by {
            assert forall|i: int| 0 <= i < init.len() implies '0' <= #[trigger] init[i] <= '9' by {
                assert(init[i] == d[i]);
            }
        }
        lemma_digits_prefix(init, k);
        assert(init.take(k) =~= d.take(k));
    }
}

/// The unsigned integer that `s` spells when it is at most `max`, as `parse_unsigned` says.
fn parse_decimal(s: &str, max: u32) -> (r: Option<u32>)
    requires
        max <= 65535,
    ensures
        match parse_unsigned(s@, max as nat) {
            Some(v) => r == Some(v as u32),
            None => r is None,
        },
{
    let n = s.unicode_len();
    let start: usize = if n > 0 && s.get_char(0) == '+' {
        1
    } else {
        0
    };
    let ghost d = s@.subrange(start as int, n as int);
    proof {
        if start == 1 {
            assert(d =~= s@.drop_first());
        } else {
            assert(d =~= s@);
        }
    }
    let mut value: u32 = 0;
    let mut i: usize = start;
    while i < n
        invariant
            start <= i <= n,
            n == s@.len(),
            d == s@.subrange(start as int, n as int),
            d == (if s@.len() > 0 && s@[0] == '+' {
                s@.drop_first()
            } else {
                s@
            }),
            max <= 65535,
            all_digits(d.take(i - start)),
            value as nat == digits_value(d.take(i - start)),
            value <= max,
        decreases n - i,
    {
        let c = s.get_char(i);
        let ghost k = i - start;
        assert(d[k] == c);
        if !('0' <= c && c <= '9') {
            assert(!all_digits(d));
            return None;
        }
        let digit = (c as u32) - ('0' as u32);
        let next = value * 10 + digit;
        proof {
            let t = d.take(k + 1);
            assert(t.drop_last() =~= d.take(k));
            assert(t.last() == c);
            assert(all_digits(t)) by {
                assert forall|j: int| 0 <= j < t.len() implies '0' <= #[trigger] t[j] <= '9' by {
                    if j < k {
                        assert(t[j] == d.take(k)[j]);
                    }
                }
            }
            assert(digits_value(t) == digits_value(d.take(k)) * 10 + (c as nat - '0' as nat));
        }
        if next > max {
            proof {
                if all_digits(d) {
                    lemma_digits_prefix(d, k + 1);
                }
            }
            return None;
        }
        value = next;
        i = i + 1;
    }
    assert(d.take(n - start) =~= d);
    if i == start {
        None
    } else {
        Some(value)
    }
}

/// `str::parse::<u8>`: an optional `+` then decimal digits whose value fits, as its documentation
/// says.
fn parse_u8(s: &str) -> (r: Option<u8>)
    ensures
        match parse_unsigned(s@, 255) {
            Some(v) => r == Some(v as u8),
            None => r is None,
        },
{
    match parse_decimal(s, 255) {
        Some(v) => Some(v as u8),
        None => None,
    }
}

/// `str::parse::<u16>`: an optional `+` then decimal digits whose value fits, as its
/// documentation says.
fn parse_u16(s: &str) -> (r: Option<u16>)
    ensures
        match parse_unsigned(s@, 65535) {
            Some(v) => r == Some(v as u16),
            None => r is None,
        },
{
    match parse_decimal(s, 65535) {
        Some(v) => Some(v as u16),
        None => None,
    }
}

// ---------------------------------------------------------------------------------------
// The handshake.

/// The length of a frame's body: the big-endian 32-bit number in bytes 5 to 8 of its header.
pub open spec fn body_length(header: Seq<u8>) -> nat {
    header[5] as nat * 0x1000000 + header[6] as nat * 0x10000 + header[7] as nat * 0x100
        + header[8] as nat
}

/// The length of the body of the frame whose header is `buffer`.
pub fn get_body_length_usize(buffer: &[u8]) -> (r: usize)
    requires
        buffer@.len() >= HEADER_LEN,
    ensures
        r as nat == body_length(buffer@),
{
    let b5 = buffer[5] as usize;
    let b6 = buffer[6] as usize;
    let b7 = buffer[7] as usize;
    let b8 = buffer[8] as usize;
    assert(((b5 << 24usize) + (b6 << 16usize) + (b7 << 8usize) + (b8 << 0usize)) == b5 * 0x1000000
        + b6 * 0x10000 + b7 * 0x100 + b8) by (bit_vector)
        requires
            b5 < 256,
            b6 < 256,
            b7 < 256,
            b8 < 256,
    ;
    (b5 << 24usize) + (b6 << 16usize) + (b7 << 8usize) + (b8 << 0usize)
}

/// The frame that opens a connection: a `STARTUP` request without compression.
pub fn startup_frame() -> (r: Vec<u8>)
    ensures
        r@.len() == 31,
        request_header(r@, 1, 22),
        r@.subrange(9, 31) == startup_body(),
{
    startup_request()
}

/// The frame that asks for the node's options: an `OPTIONS` request.
pub fn options_frame() -> (r: Vec<u8>)
    ensures
        r@.len() == 9,
        request_header(r@, 5, 0),
{
    options_request()
}

/// The header of the reply to `STARTUP` says `READY`. The opcode byte must be one that the
/// decoder knows.
pub fn is_ready(header: &[u8]) -> (r: bool)
    requires
        header@.len() >= HEADER_LEN,
        is_opcode(header@[4]),
    ensures
        r == (header@[4] == 2),
{
    opcode_is_ready(header[4])
}

/// The first value of a list of option values.
pub open spec fn first_value(values: Option<Seq<Seq<char>>>) -> Option<Seq<char>> {
    match values {
        Some(v) => if v.len() > 0 {
            Some(v[0])
        } else {
            None
        },
        None => None,
    }
}

/// The first value of the option `key` parsed as an integer of at most `max`.
pub open spec fn option_number(options: Map<Seq<char>, Seq<Seq<char>>>, key: Seq<char>, max: nat) -> Option<nat> {
    let values = if options.contains_key(key) {
        Some(options[key])
    } else {
        None
    };
    match first_value(values) {
        Some(s) => parse_unsigned(s, max),
        None => None,
    }
}

/// The sharding that decoded options report, when the first value of each of `SCYLLA_SHARD`,
/// `SCYLLA_NR_SHARDS` and `SCYLLA_SHARDING_IGNORE_MSB` is present and parses.
pub open spec fn spec_shard_info(options: Map<Seq<char>, Seq<Seq<char>>>) -> Option<ShardInfo> {
    match (
        option_number(options, "SCYLLA_SHARD"@, 255),
        option_number(options, "SCYLLA_NR_SHARDS"@, 65535),
        option_number(options, "SCYLLA_SHARDING_IGNORE_MSB"@, 255),
    ) {
        (Some(shard), Some(nr_shards), Some(msb)) => Some(
            ShardInfo { shard: shard as u8, nr_shards: nr_shards as u16, ignore_msb: msb as u8 },
        ),
        _ => None,
    }
}

fn option_u8(options: &cdrs::frame::frame_supported::BodyResSupported, key: &str) -> (r: Option<u8>)
    ensures
        match option_number(supported_options(*options), key@, 255) {
            Some(v) => r == Some(v as u8),
            None => r is None,
        },
{
    match supported_values(options, key) {
        Some(values) => {
            if values.len() > 0 {
                proof {
                    assert(values@.map_values(|s: String| s@)[0] == values@[0]@);
                }
                parse_u8(values[0].as_str())
            } else {
                None
            }
        },
        None => None,
    }
}

fn option_u16(options: &cdrs::frame::frame_supported::BodyResSupported, key: &str) -> (r: Option<u16>)
    ensures
        match option_number(supported_options(*options), key@, 65535) {
            Some(v) => r == Some(v as u16),
            None => r is None,
        },
{
    match supported_values(options, key) {
        Some(values) => {
            if values.len() > 0 {
                proof {
                    assert(values@.map_values(|s: String| s@)[0] == values@[0]@);
                }
                parse_u16(values[0].as_str())
            } else {
                None
            }
        },
        None => None,
    }
}

/// The sharding reported in the `SUPPORTED` body `body`; none when the body does not decode or
/// an option is missing or does not parse.
pub fn shard_info(body: &[u8]) -> (r: Option<ShardInfo>)
    ensures
        r == match decoded_supported(body@) {
            Some(options) => spec_shard_info(options),
            None => None,
        },
{
    match decode_supported(body) {
        Some(options) => {
            let shard = option_u8(&options, "SCYLLA_SHARD");
            let nr_shards = option_u16(&options, "SCYLLA_NR_SHARDS");
            let msb = option_u8(&options, "SCYLLA_SHARDING_IGNORE_MSB");
            match (shard, nr_shards, msb) {
                (Some(shard), Some(nr_shards), Some(ignore_msb)) => Some(
                    ShardInfo { shard, nr_shards, ignore_msb },
                ),
                _ => None,
            }
        },
        None => None,
    }
}

/// Keep a connection on shard `shard` of a node with `shard_count` shards when shard `wanted` is
/// wanted, give up when the node has no such shard, retry otherwise.
pub open spec fn spec_choose_shard(shard: u8, shard_count: ShardCount, wanted: u8) -> ShardChoice {
    if shard == wanted {
        ShardChoice::Keep
    } else if wanted as int >= shard_count as int {
        ShardChoice::NoSuchShard
    } else {
        ShardChoice::Retry
    }
}

/// The choice on a connection that landed on `shard` of a node with `shard_count` shards, when
/// `wanted` is wanted: keep it exactly when it is on the wanted shard; otherwise retry when the
/// node has the wanted shard (`wanted < shard_count`), and give up only when it has not.
pub proof fn lemma_choose_shard(shard: u8, shard_count: ShardCount, wanted: u8)
    ensures
        spec_choose_shard(shard, shard_count, wanted) is Keep <==> shard == wanted,
        spec_choose_shard(shard, shard_count, wanted) is Retry <==> shard != wanted && (wanted as int)
            < (shard_count as int),
        spec_choose_shard(shard, shard_count, wanted) is NoSuchShard <==> shard != wanted && wanted as int
            >= shard_count as int,
{
}

/// Whether to keep a connection on which the node reported `info`, when shard `shard_id` is
/// wanted.
pub fn choose_shard(info: ShardInfo, shard_id: u8) -> (r: ShardChoice)
    ensures
        r == spec_choose_shard(info.shard, info.nr_shards, shard_id),
        r is Keep <==> info.shard == shard_id,
        r is Retry <==> info.shard != shard_id && (shard_id as int) < (info.nr_shards as int),
        r is NoSuchShard <==> info.shard != shard_id && shard_id as int >= info.nr_shards as int,
{
    proof {
        lemma_choose_shard(info.shard, info.nr_shards, shard_id);
    }
    if info.shard == shard_id {
        ShardChoice::Keep
    } else if shard_id as u16 >= info.nr_shards {
        ShardChoice::NoSuchShard
    } else {
        ShardChoice::Retry
    }
}

impl CqlConn {
    /// The shard the connection is on.
    pub closed spec fn shard(&self) -> u8 {
        self.shard_id
    }

    /// The number of shards of the node.
    pub closed spec fn spec_shard_count(&self) -> ShardCount {
        self.shard_count
    }

    /// The ignored high bits of the node's tokens.
    pub closed spec fn spec_msb(&self) -> Msb {
        self.msb
    }

    /// The connection holds its stream.
    pub closed spec fn has_stream(&self) -> bool {
        self.stream is Some
    }

    /// The connection holds the ring's tokens.
    pub open spec fn has_tokens(&self) -> bool {
        self.spec_tokens() is Some
    }

    /// The ring's tokens that the connection holds.
    pub closed spec fn spec_tokens(&self) -> Option<Tokens> {
        self.tokens
    }

    /// A connection over `stream` on the shard that the node reported, without tokens yet.
    pub fn new(stream: tokio::net::TcpStream, info: ShardInfo) -> (r: Self)
        ensures
            r.shard() == info.shard,
            r.spec_shard_count() == info.nr_shards,
            r.spec_msb() == info.ignore_msb,
            r.has_stream(),
            !r.has_tokens(),
    {
        CqlConn {
            stream: Some(stream),
            tokens: None,
            shard_id: info.shard,
            shard_count: info.nr_shards,
            msb: info.ignore_msb,
        }
    }

    /// The number of shards of the node.
    pub fn get_shard_count(&self) -> (r: ShardCount)
        ensures
            r == self.spec_shard_count(),
    {
        self.shard_count
    }

    /// Takes the ring's tokens out of the connection.
    pub fn take_tokens(&mut self) -> (r: Tokens)
        requires
            old(self).has_tokens(),
        ensures
            Some(r) == old(self).spec_tokens(),
            !final(self).has_tokens(),
            final(self).has_stream() == old(self).has_stream(),
            final(self).shard() == old(self).shard(),
            final(self).spec_shard_count() == old(self).spec_shard_count(),
            final(self).spec_msb() == old(self).spec_msb(),
    {
        self.tokens.take().unwrap()
    }

    /// Takes the stream out of the connection.
    pub fn take_stream(&mut self) -> (r: tokio::net::TcpStream)
        requires
            old(self).has_stream(),
        ensures
            !final(self).has_stream(),
            final(self).spec_tokens() == old(self).spec_tokens(),
            final(self).shard() == old(self).shard(),
            final(self).spec_shard_count() == old(self).spec_shard_count(),
            final(self).spec_msb() == old(self).spec_msb(),
    {
        self.stream.take().unwrap()
    }

    /// Whether to keep the connection when shard `shard_id` is wanted (see [`choose_shard`]).
    pub fn shard_choice(&self, shard_id: u8) -> (r: ShardChoice)
        ensures
            r == spec_choose_shard(self.shard(), self.spec_shard_count(), shard_id),
            r is Keep <==> self.shard() == shard_id,
            r is Retry <==> self.shard() != shard_id && (shard_id as int) < (self.spec_shard_count() as int),
            r is NoSuchShard <==> self.shard() != shard_id && shard_id as int >= self.spec_shard_count() as int,
    {
        choose_shard(ShardInfo { shard: self.shard_id, nr_shards: self.shard_count, ignore_msb: self.msb }, shard_id)
    }
}

} // verus!
