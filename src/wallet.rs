use crate::signer::{lower_hex_alphabet, sign, signature_of, MAX_SIGNED_LEN, TAG_LEN};
use vstd::prelude::*;
use vstd::string::StringExecFns;
use vstd::utf8::encode_utf8;

verus! {

/// Longest parameter string, in UTF-8 bytes, that `signed_query` accepts: room
/// is left for the timestamp and receive window that it appends before signing.
pub const MAX_PARAMS_LEN: u64 = MAX_SIGNED_LEN - 256;

/// Path of the trade fee endpoint on the global service.
pub const TRADE_FEE_PATH: &'static str = "/sapi/v1/asset/tradeFee";

/// Path of the trade fee endpoint on the US service.
pub const TRADE_FEE_PATH_US: &'static str = "/sapi/v1/asset/query/trading-fee";

/// The settings of a wallet client: its credentials, the receive window sent
/// with every signed call, and which of the two services it talks to.
#[derive(Clone, Debug)]
pub struct Wallet {
    pub api_key: String,
    pub secret_key: String,
    pub recv_window: u64,
    pub binance_us_api: bool,
}

/// Why a request was refused before anything was sent.
#[derive(Clone, Copy, Debug, PartialEq, Eq, Structural)]
pub enum WalletError {
    /// The deposit questionnaire lacks the depositor or the source of the funds.
    IncompleteQuestionnaire,
}

impl WalletError {
    /// The message that tells a user what went wrong.
    pub fn message(&self) -> (r: &'static str)
        ensures
            r@ == "Questionnaire must include depositOriginator and receiveFrom"@,
    {
        match self {
            WalletError::IncompleteQuestionnaire => "Questionnaire must include depositOriginator and receiveFrom",
        }
    }
}

pub open spec fn decimal_digit(d: int) -> char {
    seq!['0', '1', '2', '3', '4', '5', '6', '7', '8', '9'][d]
}

/// The decimal text of `n`, without leading zeros.
pub open spec fn decimal_of(n: nat) -> Seq<char>
    decreases n,
{
    if n < 10 {
        seq![decimal_digit(n as int)]
    } else {
        decimal_of(n / 10) + seq![decimal_digit((n % 10) as int)]
    }
}

/// The canonical string that is signed: the caller's parameters, then the
/// timestamp and the receive window.
pub open spec fn signed_payload(params: Seq<char>, timestamp: nat, recv_window: nat) -> Seq<char> {
    let stamp = "timestamp="@ + decimal_of(timestamp) + "&recvWindow="@ + decimal_of(recv_window);
    if params.len() == 0 {
        stamp
    } else {
        params + "&"@ + stamp
    }
}

/// The query string sent on the wire: the signed payload followed by its signature.
pub open spec fn signed_query_of(
    secret: Seq<char>,
    params: Seq<char>,
    timestamp: nat,
    recv_window: nat,
) -> Seq<char> {
    let payload = signed_payload(params, timestamp, recv_window);
    payload + "&signature="@ + signature_of(encode_utf8(secret), encode_utf8(payload))
}

fn digit_text(d: u64) -> (r: &'static str)
    requires
        d < 10,
    ensures
        r@ == seq![decimal_digit(d as int)],
{
    proof {
        reveal_strlit("0");
        reveal_strlit("1");
        reveal_strlit("2");
        reveal_strlit("3");
        reveal_strlit("4");
        reveal_strlit("5");
        reveal_strlit("6");
        reveal_strlit("7");
        reveal_strlit("8");
        reveal_strlit("9");
    }
    let r = match d {
        0 => "0",
        1 => "1",
        2 => "2",
        3 => "3",
        4 => "4",
        5 => "5",
        6 => "6",
        7 => "7",
        8 => "8",
        _ => "9",
    };
    assert(r@ =~= seq![decimal_digit(d as int)]);
    r
}

/// Appends the decimal text of `n` to `s`.
fn push_decimal(s: &mut String, n: u64)
    ensures
        final(s)@ == old(s)@ + decimal_of(n as nat),
    decreases n,
{
    if n >= 10 {
        push_decimal(s, n / 10);
    }
    s.append(digit_text(n % 10));
    assert(final(s)@ =~= old(s)@ + decimal_of(n as nat));
}

/// The decimal text of `n`.
pub fn decimal_string(n: u64) -> (r: String)
    ensures
        r@ == decimal_of(n as nat),
{
    let mut s = String::new();
    push_decimal(&mut s, n);
    assert(s@ =~= decimal_of(n as nat));
    s
}

pub open spec fn pow10(k: nat) -> nat
    decreases k,
{
    if k == 0 {
        1
    } else {
        10 * pow10((k - 1) as nat)
    }
}

proof fn lemma_decimal_len(n: nat, k: nat)
    requires
        k >= 1,
        n < pow10(k),
    ensures
        decimal_of(n).len() <= k,
    decreases n,
{
    if n >= 10 {
        assert(k >= 2) by {
            if k == 1 {
                reveal_with_fuel(pow10, 2);
            }
        }
        lemma_decimal_len(n / 10, (k - 1) as nat);
    }
}

/// The decimal text of any `u64` has at most twenty digits.
proof fn lemma_decimal_u64_len(n: u64)
    ensures
        decimal_of(n as nat).len() <= 20,
{
    reveal_with_fuel(pow10, 21);
    assert(pow10(20) == 100_000_000_000_000_000_000);
    lemma_decimal_len(n as nat, 20);
}

proof fn lemma_encode_utf8_concat(a: Seq<char>, b: Seq<char>)
    ensures
        encode_utf8(a + b) == encode_utf8(a) + encode_utf8(b),
    decreases a.len(),
{
    if a.len() == 0 {
        assert(a + b =~= b);
        assert(encode_utf8(a) + encode_utf8(b) =~= encode_utf8(b));
    } else {
        assert((a + b).drop_first() =~= a.drop_first() + b);
        assert((a + b)[0] == a[0]);
        lemma_encode_utf8_concat(a.drop_first(), b);
        let head = vstd::utf8::encode_scalar(a[0] as u32);
        assert(head + (encode_utf8(a.drop_first()) + encode_utf8(b)) =~= (head + encode_utf8(
            a.drop_first(),
        )) + encode_utf8(b));
    }
}

proof fn lemma_encode_utf8_len(s: Seq<char>)
    ensures
        encode_utf8(s).len() <= 4 * s.len(),
    decreases s.len(),
{
    if s.len() > 0 {
        lemma_encode_utf8_len(s.drop_first());
    }
}

/// The payload that `signed_query` signs is no longer than the signer accepts.
proof fn lemma_payload_len(params: Seq<char>, timestamp: u64, recv_window: u64)
    requires
        encode_utf8(params).len() <= MAX_PARAMS_LEN,
    ensures
        encode_utf8(signed_payload(params, timestamp as nat, recv_window as nat)).len()
            <= MAX_SIGNED_LEN,
{
    reveal_strlit("timestamp=");
    reveal_strlit("&recvWindow=");
    reveal_strlit("&");
    lemma_decimal_u64_len(timestamp);
    lemma_decimal_u64_len(recv_window);
    let stamp = "timestamp="@ + decimal_of(timestamp as nat) + "&recvWindow="@ + decimal_of(
        recv_window as nat,
    );
    let tail = "&"@ + stamp;
    lemma_encode_utf8_len(stamp);
    lemma_encode_utf8_len(tail);
    if params.len() > 0 {
        lemma_encode_utf8_concat(params, tail);
        assert(params + "&"@ + stamp =~= params + tail);
    }
}

/// Signing a query string is deterministic: equal query strings and equal
/// secrets give the same signature from `Wallet::generate_signature`, with no
/// dependence on anything else.
pub proof fn lemma_generate_signature_deterministic(
    query_a: Seq<char>,
    secret_a: Seq<char>,
    query_b: Seq<char>,
    secret_b: Seq<char>,
)
    requires
        query_a == query_b,
        secret_a == secret_b,
    ensures
        signature_of(encode_utf8(secret_a), encode_utf8(query_a)) == signature_of(
            encode_utf8(secret_b),
            encode_utf8(query_b),
        ),
{
}

impl Wallet {
    pub fn new(api_key: String, secret_key: String, recv_window: u64, binance_us_api: bool) -> (r:
        Wallet)
        ensures
            r.api_key == api_key,
            r.secret_key == secret_key,
            r.recv_window == recv_window,
            r.binance_us_api == binance_us_api,
    {
        Wallet { api_key, secret_key, recv_window, binance_us_api }
    }

    /// The lowercase hex HMAC-SHA256 signature of `query_string` under `api_secret`.
    pub fn generate_signature(query_string: &str, api_secret: &str) -> (r: String)
        requires
            encode_utf8(query_string@).len() <= MAX_SIGNED_LEN,
            encode_utf8(api_secret@).len() <= MAX_SIGNED_LEN,
        ensures
            r@ == signature_of(encode_utf8(api_secret@), encode_utf8(query_string@)),
            r@.len() == 2 * TAG_LEN,
            forall|i: int| 0 <= i < r@.len() ==> lower_hex_alphabet().contains(#[trigger] r@[i]),
    {
        sign(api_secret.as_bytes(), query_string.as_bytes())
    }

    /// The signed query string for `params` at `timestamp`: the parameters, the
    /// timestamp and this wallet's receive window, then the signature of all of it.
    pub fn signed_query(&self, params: &str, timestamp: u64) -> (r: String)
        requires
            encode_utf8(params@).len() <= MAX_PARAMS_LEN,
            encode_utf8(self.secret_key@).len() <= MAX_SIGNED_LEN,
        ensures
            r@ == signed_query_of(
                self.secret_key@,
                params@,
                timestamp as nat,
                self.recv_window as nat,
            ),
    {
        let mut payload = String::new();
        if !params.is_empty() {
            payload.append(params);
            payload.append("&");
        }
        payload.append("timestamp=");
        push_decimal(&mut payload, timestamp);
        payload.append("&recvWindow=");
        push_decimal(&mut payload, self.recv_window);
        let ghost expected = signed_payload(params@, timestamp as nat, self.recv_window as nat);
        assert(payload@ =~= expected);
        proof {
            lemma_payload_len(params@, timestamp, self.recv_window);
        }
        let signature = Self::generate_signature(payload.as_str(), self.secret_key.as_str());
        payload.append("&signature=");
        payload.append(signature.as_str());
        payload
    }

    /// The path of the trade fee endpoint of the service this wallet talks to.
    pub fn trade_fee_path(&self) -> (r: &'static str)
        ensures
            r@ == if self.binance_us_api {
                TRADE_FEE_PATH_US@
            } else {
                TRADE_FEE_PATH@
            },
    {
        if self.binance_us_api {
            TRADE_FEE_PATH_US
        } else {
            TRADE_FEE_PATH
        }
    }
}

/// Refuses a deposit questionnaire that names no depositor or no source of the
/// funds (a zero code), before anything is sent.
pub fn check_questionnaire(deposit_originator: u32, receive_from: u32) -> (r: Result<
    (),
    WalletError,
>)
    ensures
        r is Ok <==> (deposit_originator != 0 && receive_from != 0),
        r is Err ==> r == Err::<(), WalletError>(WalletError::IncompleteQuestionnaire),
{
    if deposit_originator == 0 || receive_from == 0 {
        Err(WalletError::IncompleteQuestionnaire)
    } else {
        Ok(())
    }
}

/// The parameters of a deposit questionnaire submission, in the order they are
/// sent: the transfer id, the questionnaire as JSON text, and the timestamp.
pub fn questionnaire_payload(tran_id: String, questionnaire_json: String, timestamp: u64) -> (r:
    Vec<(String, String)>)
    ensures
        r@.len() == 3,
        r@[0].0@ == "tranId"@,
        r@[0].1@ == tran_id@,
        r@[1].0@ == "questionnaire"@,
        r@[1].1@ == questionnaire_json@,
        r@[2].0@ == "timestamp"@,
        r@[2].1@ == decimal_of(timestamp as nat),
{
    let mut r: Vec<(String, String)> = Vec::new();
    r.push((String::from_str("tranId"), tran_id));
    r.push((String::from_str("questionnaire"), questionnaire_json));
    r.push((String::from_str("timestamp"), decimal_string(timestamp)));
    r
}

} // verus!
