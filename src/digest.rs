//! The digest engine: the canonical payload of a block's fields, its SHA-256
//! digest, and the unpadded binary text that the difficulty check reads.

use sha2::Digest;
use vstd::prelude::*;

use vstd::utf8::encode_utf8;

use crate::account::{Account, AccountView};
use crate::block::{accounts_view, strings_view, BlockView};

verus! {

/// What `sha2` computes as the SHA-256 digest of a byte sequence.
pub uninterp spec fn sha256_of(bytes: Seq<u8>) -> Seq<u8>;

/// What `serde_json` writes for a string value: the text quoted and escaped.
pub uninterp spec fn json_quoted_of(s: Seq<char>) -> Seq<char>;

/// Relies on `sha2::Sha256::digest`: the SHA-256 digest of `bytes`, 32 bytes long.
#[verifier::external_body]
fn sha256(bytes: &[u8]) -> (r: Vec<u8>)
    ensures
        r@ == sha256_of(bytes@),
        r@.len() == 32,
{
    sha2::Sha256::digest(bytes).to_vec()
}

/// Relies on `serde_json::Value`'s `Display` for a string value: the JSON literal of `s`.
#[verifier::external_body]
fn json_quoted(s: &str) -> (r: String)
    ensures
        r@ == json_quoted_of(s@),
{
    serde_json::Value::from(s).to_string()
}

pub open spec fn bit_char(b: nat) -> char {
    if b == 0 {
        '0'
    } else {
        '1'
    }
}

/// Binary digits of `n` without leading zeros (`0` is written `"0"`).
pub open spec fn binary_digits(n: nat) -> Seq<char>
    decreases n,
{
    if n < 2 {
        seq![bit_char(n)]
    } else {
        binary_digits(n / 2).push(bit_char(n % 2))
    }
}

/// The binary text of a digest: each byte's unpadded binary digits, in byte order.
pub open spec fn binary_text(bytes: Seq<u8>) -> Seq<char>
    decreases bytes.len(),
{
    if bytes.len() == 0 {
        Seq::empty()
    } else {
        binary_text(bytes.drop_last()) + binary_digits(bytes.last() as nat)
    }
}

pub open spec fn decimal_digit(d: nat) -> char {
    seq!['0', '1', '2', '3', '4', '5', '6', '7', '8', '9'][d as int]
}

/// Decimal digits of `n` without leading zeros.
pub open spec fn decimal_text(n: nat) -> Seq<char>
    decreases n,
{
    if n < 10 {
        seq![decimal_digit(n)]
    } else {
        decimal_text(n / 10).push(decimal_digit(n % 10))
    }
}

fn digit_str(d: u64) -> (r: &'static str)
    requires
        d < 10,
    ensures
        r@ == seq![decimal_digit(d as nat)],
{
    let table = "0123456789";
    proof {
        reveal_strlit("0123456789");
    }
    let r = table.substring_char(d as usize, d as usize + 1);
    assert(r@ =~= seq![decimal_digit(d as nat)]);
    r
}

/// Appends the decimal digits of `n` to `out`.
pub fn push_decimal(out: &mut String, n: u64)
    ensures
        final(out)@ == old(out)@ + decimal_text(n as nat),
    decreases n,
{
    if n < 10 {
        out.append(digit_str(n));
    } else {
        push_decimal(out, n / 10);
        out.append(digit_str(n % 10));
        assert(decimal_text(n as nat) == decimal_text((n / 10) as nat).push(
            decimal_digit((n % 10) as nat),
        ));
    }
    assert(final(out)@ =~= old(out)@ + decimal_text(n as nat));
}

fn push_binary(out: &mut String, n: u8)
    ensures
        final(out)@ == old(out)@ + binary_digits(n as nat),
    decreases n,
{
    let table = "01";
    proof {
        reveal_strlit("01");
    }
    if n < 2 {
        let s = table.substring_char(n as usize, n as usize + 1);
        assert(s@ =~= seq![bit_char(n as nat)]);
        out.append(s);
    } else {
        push_binary(out, n / 2);
        let b = n % 2;
        let s = table.substring_char(b as usize, b as usize + 1);
        assert(s@ =~= seq![bit_char(b as nat)]);
        out.append(s);
    }
    assert(final(out)@ =~= old(out)@ + binary_digits(n as nat));
}

/// Writes each byte of `hash` as its binary digits, unpadded, in byte order.
pub fn hash_to_binary(hash: &[u8]) -> (r: String)
    ensures
        r@ == binary_text(hash@),
{
    let mut res = String::new();
    let mut i: usize = 0;
    while i < hash.len()
        invariant
            i <= hash@.len(),
            res@ == binary_text(hash@.take(i as int)),
        decreases hash@.len() - i,
    {
        push_binary(&mut res, hash[i]);
        assert(hash@.take(i as int + 1).drop_last() =~= hash@.take(i as int));
        i = i + 1;
    }
    assert(hash@.take(i as int) =~= hash@);
    res
}

/// The canonical encoding of one account: a JSON object with its keys in order.
pub open spec fn account_json(a: AccountView) -> Seq<char> {
    "{\"address\":"@ + json_quoted_of(a.address) + ",\"staked\":"@ + decimal_text(a.staked as nat)
        + ",\"tokens\":"@ + decimal_text(a.tokens as nat) + "}"@
}

/// The accounts' encodings, separated by commas.
pub open spec fn accounts_json(s: Seq<AccountView>) -> Seq<char>
    decreases s.len(),
{
    if s.len() == 0 {
        Seq::empty()
    } else if s.len() == 1 {
        account_json(s[0])
    } else {
        accounts_json(s.drop_last()) + ","@ + account_json(s.last())
    }
}

/// The strings' JSON literals, separated by commas.
pub open spec fn strings_json(s: Seq<Seq<char>>) -> Seq<char>
    decreases s.len(),
{
    if s.len() == 0 {
        Seq::empty()
    } else if s.len() == 1 {
        json_quoted_of(s[0])
    } else {
        strings_json(s.drop_last()) + ","@ + json_quoted_of(s.last())
    }
}

/// The canonical payload of a block's fields: a JSON object whose keys stand in
/// lexicographic order, with no whitespace.
pub open spec fn payload_text(
    id: u64,
    previous_hash: Seq<char>,
    data: Seq<AccountView>,
    timestamp: u64,
    nonce: u64,
    next_miner: Seq<char>,
    next_validators: Seq<Seq<char>>,
) -> Seq<char> {
    "{\"data\":["@ + accounts_json(data) + "],\"id\":"@ + decimal_text(id as nat)
        + ",\"next_miner\":"@ + json_quoted_of(next_miner) + ",\"next_validators\":["@
        + strings_json(next_validators) + "],\"nonce\":"@ + decimal_text(nonce as nat)
        + ",\"previous_hash\":"@ + json_quoted_of(previous_hash) + ",\"timestamp\":"@
        + decimal_text(timestamp as nat) + "}"@
}

/// The digest of a block's fields: SHA-256 over the UTF-8 bytes of the canonical payload.
pub open spec fn fields_digest(
    id: u64,
    previous_hash: Seq<char>,
    data: Seq<AccountView>,
    timestamp: u64,
    nonce: u64,
    next_miner: Seq<char>,
    next_validators: Seq<Seq<char>>,
) -> Seq<u8> {
    sha256_of(
        encode_utf8(
            payload_text(id, previous_hash, data, timestamp, nonce, next_miner, next_validators),
        ),
    )
}

/// The binary text that a block with these fields carries as its hash.
pub open spec fn fields_hash_text(
    id: u64,
    previous_hash: Seq<char>,
    data: Seq<AccountView>,
    timestamp: u64,
    nonce: u64,
    next_miner: Seq<char>,
    next_validators: Seq<Seq<char>>,
) -> Seq<char> {
    binary_text(
        fields_digest(id, previous_hash, data, timestamp, nonce, next_miner, next_validators),
    )
}

impl BlockView {
    /// The hash text recomputed from the block's own fields.
    pub open spec fn computed_hash(self) -> Seq<char> {
        fields_hash_text(
            self.id,
            self.previous_hash,
            self.data,
            self.timestamp,
            self.nonce,
            self.next_miner,
            self.next_validators,
        )
    }
}

fn push_account_json(out: &mut String, a: &Account)
    ensures
        final(out)@ == old(out)@ + account_json(a@),
{
    out.append("{\"address\":");
    let q = json_quoted(a.address.as_str());
    out.append(q.as_str());
    out.append(",\"staked\":");
    push_decimal(out, a.staked);
    out.append(",\"tokens\":");
    push_decimal(out, a.tokens);
    out.append("}");
    assert(final(out)@ =~= old(out)@ + account_json(a@));
}

fn push_accounts_json(out: &mut String, data: &Vec<Account>)
    ensures
        final(out)@ == old(out)@ + accounts_json(accounts_view(data@)),
{
    let ghost start = out@;
    let ghost whole = accounts_view(data@);
    let mut i: usize = 0;
    while i < data.len()
        invariant
            i <= data@.len(),
            whole == accounts_view(data@),
            out@ == start + accounts_json(whole.take(i as int)),
        decreases data@.len() - i,
    {
        if i > 0 {
            out.append(",");
        }
        push_account_json(out, &data[i]);
        proof {
            let t = whole.take(i as int + 1);
            assert(t.drop_last() =~= whole.take(i as int));
            assert(t.last() == data@[i as int]@);
            if i == 0 {
                assert(t.len() == 1);
                assert(whole.take(0) =~= Seq::<AccountView>::empty());
            }
        }
        i = i + 1;
        assert(out@ =~= start + accounts_json(whole.take(i as int)));
    }
    assert(whole.take(i as int) =~= whole);
}

fn push_strings_json(out: &mut String, items: &Vec<String>)
    ensures
        final(out)@ == old(out)@ + strings_json(strings_view(items@)),
{
    let ghost start = out@;
    let ghost whole = strings_view(items@);
    let mut i: usize = 0;
    while i < items.len()
        invariant
            i <= items@.len(),
            whole == strings_view(items@),
            out@ == start + strings_json(whole.take(i as int)),
        decreases items@.len() - i,
    {
        if i > 0 {
            out.append(",");
        }
        let q = json_quoted(items[i].as_str());
        out.append(q.as_str());
        proof {
            let t = whole.take(i as int + 1);
            assert(t.drop_last() =~= whole.take(i as int));
            assert(t.last() == items@[i as int]@);
            if i == 0 {
                assert(t.len() == 1);
                assert(whole.take(0) =~= Seq::<Seq<char>>::empty());
            }
        }
        i = i + 1;
        assert(out@ =~= start + strings_json(whole.take(i as int)));
    }
    assert(whole.take(i as int) =~= whole);
}

/// Writes the canonical payload of a block's fields.
pub fn canonical_payload(
    data: &Vec<Account>,
    id: u64,
    next_miner: &str,
    next_validators: &Vec<String>,
    nonce: u64,
    previous_hash: &str,
    timestamp: u64,
) -> (r: String)
    ensures
        r@ == payload_text(
            id,
            previous_hash@,
            accounts_view(data@),
            timestamp,
            nonce,
            next_miner@,
            strings_view(next_validators@),
        ),
{
    let mut out = String::new();
    out.append("{\"data\":[");
    push_accounts_json(&mut out, data);
    out.append("],\"id\":");
    push_decimal(&mut out, id);
    out.append(",\"next_miner\":");
    let q = json_quoted(next_miner);
    out.append(q.as_str());
    out.append(",\"next_validators\":[");
    push_strings_json(&mut out, next_validators);
    out.append("],\"nonce\":");
    push_decimal(&mut out, nonce);
    out.append(",\"previous_hash\":");
    let q = json_quoted(previous_hash);
    out.append(q.as_str());
    out.append(",\"timestamp\":");
    push_decimal(&mut out, timestamp);
    out.append("}");
    assert(out@ =~= payload_text(
        id,
        previous_hash@,
        accounts_view(data@),
        timestamp,
        nonce,
        next_miner@,
        strings_view(next_validators@),
    ));
    out
}

/// The SHA-256 digest of the canonical payload of a block's fields.
pub fn calculate_hash(
    data: &Vec<Account>,
    id: u64,
    next_miner: &str,
    next_validators: &Vec<String>,
    nonce: u64,
    previous_hash: &str,
    timestamp: u64,
) -> (r: Vec<u8>)
    ensures
        r@ == fields_digest(
            id,
            previous_hash@,
            accounts_view(data@),
            timestamp,
            nonce,
            next_miner@,
            strings_view(next_validators@),
        ),
        r@.len() == 32,
{
    let payload = canonical_payload(
        data,
        id,
        next_miner,
        next_validators,
        nonce,
        previous_hash,
        timestamp,
    );
    sha256(payload.as_str().as_bytes())
}

} // verus!
