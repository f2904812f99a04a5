//! The canonical wire representation of a winning settlement: the
//! `Solution` structure, its closed tag enumerations, and the exact
//! decimal and lowercase-hex field encodings.

use vstd::prelude::*;

use crate::orders::OrderUid;

verus! {

broadcast use vstd::array::group_array_axioms;

/// The decimal digit character for `d` (0 through 9).
pub open spec fn dec_digit(d: int) -> char {
    if d == 0 { '0' }
    else if d == 1 { '1' }
    else if d == 2 { '2' }
    else if d == 3 { '3' }
    else if d == 4 { '4' }
    else if d == 5 { '5' }
    else if d == 6 { '6' }
    else if d == 7 { '7' }
    else if d == 8 { '8' }
    else { '9' }
}

/// The decimal rendering of `n`: no sign, no leading zeros (but "0"
/// itself), no scientific notation.
pub open spec fn dec_of(n: nat) -> Seq<char>
    decreases n,
{
    if n < 10 {
        seq![dec_digit(n as int)]
    } else {
        dec_of(n / 10) + seq![dec_digit((n % 10) as int)]
    }
}

/// The lowercase hexadecimal digit character for `d` (0 through 15).
pub open spec fn hex_digit(d: int) -> char {
    if d == 0 { '0' }
    else if d == 1 { '1' }
    else if d == 2 { '2' }
    else if d == 3 { '3' }
    else if d == 4 { '4' }
    else if d == 5 { '5' }
    else if d == 6 { '6' }
    else if d == 7 { '7' }
    else if d == 8 { '8' }
    else if d == 9 { '9' }
    else if d == 10 { 'a' }
    else if d == 11 { 'b' }
    else if d == 12 { 'c' }
    else if d == 13 { 'd' }
    else if d == 14 { 'e' }
    else { 'f' }
}

/// Two lowercase hex characters for every byte, in order.
pub open spec fn hex_body(b: Seq<u8>) -> Seq<char>
    decreases b.len(),
{
    if b.len() == 0 {
        Seq::empty()
    } else {
        hex_body(b.drop_last()) + seq![
            hex_digit(b.last() as int / 16),
            hex_digit(b.last() as int % 16),
        ]
    }
}

/// The standard rendering of a byte string: `0x` then two lowercase hex
/// digits per byte.
pub open spec fn hex_of(b: Seq<u8>) -> Seq<char> {
    seq!['0', 'x'] + hex_body(b)
}

fn nibble_str(d: u8) -> (r: &'static str)
    requires
        d < 16,
    ensures
        r@ == seq![hex_digit(d as int)],
{
    proof {
        reveal_strlit("0");
        reveal_strlit("1");
        reveal_strlit("2");
        reveal_strlit("3");
        reveal_strlit("4");
        reveal_strlit("5");
        reveal_strlit("6");
        reveal_strlit("7");
        reveal_strlit("8");
        reveal_strlit("9");
        reveal_strlit("a");
        reveal_strlit("b");
        reveal_strlit("c");
        reveal_strlit("d");
        reveal_strlit("e");
        reveal_strlit("f");
    }
    match d {
        0 => "0",
        1 => "1",
        2 => "2",
        3 => "3",
        4 => "4",
        5 => "5",
        6 => "6",
        7 => "7",
        8 => "8",
        9 => "9",
        10 => "a",
        11 => "b",
        12 => "c",
        13 => "d",
        14 => "e",
        _ => "f",
    }
}

/// Renders bytes as `0x`-prefixed lowercase hexadecimal, two digits per
/// byte.
pub fn hex_encode(data: &[u8]) -> (r: String)
    ensures
        r@ == hex_of(data@),
{
    let mut r = String::from_str("0x");
    proof {
        reveal_strlit("0x");
        assert(r@ =~= seq!['0', 'x'] + hex_body(data@.take(0)));
    }
    let n = data.len();
    for i in 0..n
        invariant
            n == data@.len(),
            r@ == seq!['0', 'x'] + hex_body(data@.take(i as int)),
    {
        let b = data[i];
        r.append(nibble_str(b / 16));
        r.append(nibble_str(b % 16));
        proof {
            assert(data@.take(i + 1).drop_last() =~= data@.take(i as int));
            assert(data@.take(i + 1).last() == data@[i as int]);
            assert(r@ =~= seq!['0', 'x'] + hex_body(data@.take(i + 1)));
        }
    }
    proof {
        assert(data@.take(n as int) =~= data@);
    }
    r
}

/// Renders an order uid as its fixed 56 bytes in `0x`-prefixed lowercase
/// hexadecimal.
pub fn encode_order_uid(uid: &OrderUid) -> (r: String)
    ensures
        r@ == hex_of(uid@),
{
    hex_encode(uid.0.as_slice())
}

/// Relies on primitive-types' `Display` for `U256`: the plain decimal
/// digits of the value, no sign and no leading zeros.
#[verifier::external_body]
fn u256_decimal_str(v: &primitive_types::U256) -> (r: String)
    ensures
        r@ == dec_of(crate::numeric::u256_of(*v)),
{
    format!("{}", v)
}

/// Renders a 256-bit amount or price as a decimal string, exactly the
/// digits of its value.
pub fn encode_amount_decimal(v: &primitive_types::U256) -> (r: String)
    ensures
        r@ == dec_of(crate::numeric::u256_of(*v)),
{
    u256_decimal_str(v)
}


/// Whether `c` is a lowercase hexadecimal digit character.
pub open spec fn is_hex_char(c: char) -> bool {
    exists|d: int| 0 <= d < 16 && hex_digit(d) == c
}

fn hex_digit_val(c: char) -> (r: Option<u8>)
    ensures
        match r {
            Option::Some(d) => d < 16 && hex_digit(d as int) == c,
            Option::None => !is_hex_char(c),
        },
{
    match c {
        '0' => Some(0),
        '1' => Some(1),
        '2' => Some(2),
        '3' => Some(3),
        '4' => Some(4),
        '5' => Some(5),
        '6' => Some(6),
        '7' => Some(7),
        '8' => Some(8),
        '9' => Some(9),
        'a' => Some(10),
        'b' => Some(11),
        'c' => Some(12),
        'd' => Some(13),
        'e' => Some(14),
        'f' => Some(15),
        _ => {
            proof {
                assert forall|d: int| 0 <= d < 16 implies hex_digit(d) != c by {}
            }
            None
        },
    }
}

/// The shape of an address rendering: forty lowercase hexadecimal digits,
/// with or without the standard `0x` prefix.
pub open spec fn spec_addr_hex_shape(s: Seq<char>) -> bool {
    ||| (s.len() == 42 && s[0] == '0' && s[1] == 'x' && (forall|k: int|
        2 <= k < 42 ==> is_hex_char(#[trigger] s[k])))
    ||| (s.len() == 40 && (forall|k: int| 0 <= k < 40 ==> is_hex_char(#[trigger] s[k])))
}

/// Parses a token address from its hexadecimal rendering, with or without
/// the `0x` prefix: exactly the strings of forty lowercase hex digits are
/// accepted, and the returned address holds the bytes the digits spell.
pub fn parse_address_hex(s: &str) -> (r: Option<primitive_types::H160>)
    ensures
        r is Some <==> spec_addr_hex_shape(s@),
        match r {
            Option::Some(a) => crate::numeric::h160_bytes(a).len() == 20 && ((s@.len() == 42
                && s@ == hex_of(crate::numeric::h160_bytes(a))) || (s@.len() == 40 && s@
                == hex_body(crate::numeric::h160_bytes(a)))),
            Option::None => true,
        },
{
    let n = s.unicode_len();
    let off: usize;
    if n == 42 {
        if !(s.get_char(0) == '0' && s.get_char(1) == 'x') {
            return None;
        }
        off = 2;
    } else if n == 40 {
        off = 0;
    } else {
        return None;
    }
    let mut bytes: Vec<u8> = Vec::new();
    for i in 0..20usize
        invariant
            n == s@.len(),
            n == 42 || n == 40,
            off == (if n == 42 { 2usize } else { 0usize }),
            n == 42 ==> s@[0] == '0' && s@[1] == 'x',
            bytes@.len() == i,
            hex_body(bytes@) =~= s@.subrange(off as int, off as int + 2 * (i as int)),
            forall|k: int| off <= k < off + 2 * (i as int) ==> is_hex_char(#[trigger] s@[k]),
    {
        let hi = s.get_char(off + 2 * i);
        let lo = s.get_char(off + 2 * i + 1);
        let dh = match hex_digit_val(hi) {
            Some(d) => d,
            None => {
                proof {
                    assert(!spec_addr_hex_shape(s@));
                }
                return None;
            },
        };
        let dl = match hex_digit_val(lo) {
            Some(d) => d,
            None => {
                proof {
                    assert(!spec_addr_hex_shape(s@));
                }
                return None;
            },
        };
        let b = dh * 16 + dl;
        let ghost prev = bytes@;
        bytes.push(b);
        proof {
            assert(b as int / 16 == dh as int && b as int % 16 == dl as int) by (nonlinear_arith)
                requires
                    b == dh * 16 + dl,
                    dh < 16,
                    dl < 16,
            ;
            assert(bytes@.drop_last() =~= prev);
            assert(bytes@.last() == b);
            assert(hex_body(bytes@) == hex_body(prev) + seq![
                hex_digit(b as int / 16),
                hex_digit(b as int % 16),
            ]);
            assert(is_hex_char(s@[off as int + 2 * (i as int)]));
            assert(is_hex_char(s@[off as int + 2 * (i as int) + 1]));
            assert(hex_body(bytes@) =~= s@.subrange(off as int, off as int + 2 * (i as int) + 2));
        }
    }
    let a = crate::numeric::h160_from_bytes(&bytes);
    proof {
        assert(spec_addr_hex_shape(s@));
        if n == 42 {
            assert(s@ =~= seq!['0', 'x'] + s@.subrange(2, 42));
            assert(s@ =~= hex_of(crate::numeric::h160_bytes(a)));
        } else {
            assert(s@ =~= s@.subrange(0, 40));
            assert(s@ =~= hex_body(crate::numeric::h160_bytes(a)));
        }
    }
    Some(a)
}

/// The error of the solution encoder: a malformed member of one of the
/// closed tag enumerations, surfaced rather than silently coerced.
#[derive(Clone, Copy, Debug, PartialEq, Eq, Structural)]
pub enum SolutionError {
    UnknownSigningScheme,
    UnknownSellTokenBalance,
    UnknownBuyTokenBalance,
}

/// The side of a just-in-time order.
#[derive(Clone, Copy, Debug, PartialEq, Eq, Structural)]
pub enum Kind {
    Sell,
    Buy,
}

/// Where the sell token is drawn from.
#[derive(Clone, Copy, Debug, PartialEq, Eq, Structural)]
pub enum SellTokenBalance {
    Erc20,
    Internal,
    External,
}

/// Where the buy token is credited to.
#[derive(Clone, Copy, Debug, PartialEq, Eq, Structural)]
pub enum BuyTokenBalance {
    Erc20,
    Internal,
}

/// How the order signature was produced.
#[derive(Clone, Copy, Debug, PartialEq, Eq, Structural)]
pub enum SigningScheme {
    Eip712,
    EthSign,
    PreSign,
    Eip1271,
}

impl Default for SellTokenBalance {
    /// The default sell-token source is plain erc20 balance.
    fn default() -> (r: Self)
        ensures
            r == SellTokenBalance::Erc20,
    {
        SellTokenBalance::Erc20
    }
}

impl Default for BuyTokenBalance {
    /// The default buy-token destination is plain erc20 balance.
    fn default() -> (r: Self)
        ensures
            r == BuyTokenBalance::Erc20,
    {
        BuyTokenBalance::Erc20
    }
}

/// The wire tag of a signing scheme.
pub open spec fn spec_signing_scheme_tag(k: SigningScheme) -> Seq<char> {
    match k {
        SigningScheme::Eip712 => "eip712"@,
        SigningScheme::EthSign => "ethsign"@,
        SigningScheme::PreSign => "presign"@,
        SigningScheme::Eip1271 => "eip1271"@,
    }
}

/// The wire tag of a sell-token balance source.
pub open spec fn spec_sell_token_balance_tag(k: SellTokenBalance) -> Seq<char> {
    match k {
        SellTokenBalance::Erc20 => "erc20"@,
        SellTokenBalance::Internal => "internal"@,
        SellTokenBalance::External => "external"@,
    }
}

/// The wire tag of a buy-token balance destination.
pub open spec fn spec_buy_token_balance_tag(k: BuyTokenBalance) -> Seq<char> {
    match k {
        BuyTokenBalance::Erc20 => "erc20"@,
        BuyTokenBalance::Internal => "internal"@,
    }
}

/// The wire tag of a trade side.
pub open spec fn spec_kind_tag(k: Kind) -> Seq<char> {
    match k {
        Kind::Sell => "sell"@,
        Kind::Buy => "buy"@,
    }
}

/// The tag a signing scheme is encoded as.
pub fn signing_scheme_tag(k: &SigningScheme) -> (r: &'static str)
    ensures
        r@ == spec_signing_scheme_tag(*k),
{
    match k {
        SigningScheme::Eip712 => "eip712",
        SigningScheme::EthSign => "ethsign",
        SigningScheme::PreSign => "presign",
        SigningScheme::Eip1271 => "eip1271",
    }
}

/// The tag a sell-token balance source is encoded as.
pub fn sell_token_balance_tag(k: &SellTokenBalance) -> (r: &'static str)
    ensures
        r@ == spec_sell_token_balance_tag(*k),
{
    match k {
        SellTokenBalance::Erc20 => "erc20",
        SellTokenBalance::Internal => "internal",
        SellTokenBalance::External => "external",
    }
}

/// The tag a buy-token balance destination is encoded as.
pub fn buy_token_balance_tag(k: &BuyTokenBalance) -> (r: &'static str)
    ensures
        r@ == spec_buy_token_balance_tag(*k),
{
    match k {
        BuyTokenBalance::Erc20 => "erc20",
        BuyTokenBalance::Internal => "internal",
    }
}

/// The tag a trade side is encoded as.
pub fn kind_tag(k: &Kind) -> (r: &'static str)
    ensures
        r@ == spec_kind_tag(*k),
{
    match k {
        Kind::Sell => "sell",
        Kind::Buy => "buy",
    }
}

fn str_eq(a: &str, b: &str) -> (r: bool)
    ensures
        r == (a@ == b@),
{
    let na = a.unicode_len();
    let nb = b.unicode_len();
    if na != nb {
        assert(a@.len() != b@.len());
        return false;
    }
    for i in 0..na
        invariant
            na == a@.len(),
            na == b@.len(),
            forall|k: int| 0 <= k < i ==> a@[k] == b@[k],
    {
        if a.get_char(i) != b.get_char(i) {
            return false;
        }
    }
    proof {
        assert(a@ =~= b@);
    }
    true
}

/// Parses a signing-scheme tag; an unrecognized value is rejected with a
/// distinct error, never coerced.
pub fn parse_signing_scheme(s: &str) -> (r: Result<SigningScheme, SolutionError>)
    ensures
        match r {
            Ok(k) => s@ == spec_signing_scheme_tag(k),
            Err(e) => e == SolutionError::UnknownSigningScheme && forall|k: SigningScheme|
                s@ != spec_signing_scheme_tag(k),
        },
{
    if str_eq(s, "eip712") {
        Ok(SigningScheme::Eip712)
    } else if str_eq(s, "ethsign") {
        Ok(SigningScheme::EthSign)
    } else if str_eq(s, "presign") {
        Ok(SigningScheme::PreSign)
    } else if str_eq(s, "eip1271") {
        Ok(SigningScheme::Eip1271)
    } else {
        Err(SolutionError::UnknownSigningScheme)
    }
}

/// Parses a sell-token balance tag; an unrecognized value is rejected with
/// a distinct error, never coerced.
pub fn parse_sell_token_balance(s: &str) -> (r: Result<SellTokenBalance, SolutionError>)
    ensures
        match r {
            Ok(k) => s@ == spec_sell_token_balance_tag(k),
            Err(e) => e == SolutionError::UnknownSellTokenBalance && forall|k: SellTokenBalance|
                s@ != spec_sell_token_balance_tag(k),
        },
{
    if str_eq(s, "erc20") {
        Ok(SellTokenBalance::Erc20)
    } else if str_eq(s, "internal") {
        Ok(SellTokenBalance::Internal)
    } else if str_eq(s, "external") {
        Ok(SellTokenBalance::External)
    } else {
        Err(SolutionError::UnknownSellTokenBalance)
    }
}

/// Parses a buy-token balance tag; an unrecognized value is rejected with
/// a distinct error, never coerced.
pub fn parse_buy_token_balance(s: &str) -> (r: Result<BuyTokenBalance, SolutionError>)
    ensures
        match r {
            Ok(k) => s@ == spec_buy_token_balance_tag(k),
            Err(e) => e == SolutionError::UnknownBuyTokenBalance && forall|k: BuyTokenBalance|
                s@ != spec_buy_token_balance_tag(k),
        },
{
    if str_eq(s, "erc20") {
        Ok(BuyTokenBalance::Erc20)
    } else if str_eq(s, "internal") {
        Ok(BuyTokenBalance::Internal)
    } else {
        Err(SolutionError::UnknownBuyTokenBalance)
    }
}

/// Law: distinct signing schemes have distinct wire tags, so the encoding
/// loses nothing and parsing the emitted tag returns the scheme it came
/// from.
pub proof fn lemma_signing_scheme_tags_distinct(k1: SigningScheme, k2: SigningScheme)
    requires
        spec_signing_scheme_tag(k1) == spec_signing_scheme_tag(k2),
    ensures
        k1 == k2,
{
    reveal_strlit("eip712");
    reveal_strlit("ethsign");
    reveal_strlit("presign");
    reveal_strlit("eip1271");
    assert("eip712"@.len() == 6);
    assert("ethsign"@.len() == 7);
    assert("presign"@.len() == 7);
    assert("eip1271"@.len() == 7);
    assert("ethsign"@[0] == 'e' && "presign"@[0] == 'p' && "eip1271"@[0] == 'e');
    assert("ethsign"@[1] == 't' && "presign"@[1] == 'r' && "eip1271"@[1] == 'i');
}

/// A fulfillment trade: an existing order referenced by uid, plus the
/// executed amount.
#[derive(Clone, Copy, Debug, PartialEq)]
pub struct Fulfillment {
    pub order: OrderUid,
    pub executed_amount: primitive_types::U256,
}

/// A fully specified just-in-time order.
#[derive(Clone, Debug, PartialEq)]
pub struct JitOrder {
    pub sell_token: primitive_types::H160,
    pub buy_token: primitive_types::H160,
    pub receiver: primitive_types::H160,
    pub sell_amount: primitive_types::U256,
    pub buy_amount: primitive_types::U256,
    pub valid_to: u32,
    pub app_data: [u8; 32],
    pub fee_amount: primitive_types::U256,
    pub kind: Kind,
    pub partially_fillable: bool,
    pub sell_token_balance: SellTokenBalance,
    pub buy_token_balance: BuyTokenBalance,
    pub signing_scheme: SigningScheme,
    pub signature: Vec<u8>,
}

/// A just-in-time trade: a synthetic order plus the executed amount.
#[derive(Clone, Debug, PartialEq)]
pub struct JitTrade {
    pub order: JitOrder,
    pub executed_amount: primitive_types::U256,
}

/// One trade of a solution, tagged `fulfillment` or `jit` on the wire.
#[derive(Clone, Debug, PartialEq)]
pub enum Trade {
    Fulfillment(Fulfillment),
    Jit(JitTrade),
}

/// A swap against an internal liquidity pool.
#[derive(Clone, Copy, Debug, PartialEq)]
pub struct LiquidityInteraction {
    pub internalize: bool,
    pub id: usize,
    pub input_token: primitive_types::H160,
    pub output_token: primitive_types::H160,
    pub input_amount: primitive_types::U256,
    pub output_amount: primitive_types::U256,
}

/// A declared token amount, for allowances and asset deltas.
#[derive(Clone, Copy, Debug, PartialEq)]
pub struct Asset {
    pub token: primitive_types::H160,
    pub amount: primitive_types::U256,
}

/// A required token allowance of a custom interaction.
#[derive(Clone, Copy, Debug, PartialEq)]
pub struct Allowance {
    pub token: primitive_types::H160,
    pub spender: primitive_types::H160,
    pub amount: primitive_types::U256,
}

/// An arbitrary external call of a solution.
#[derive(Clone, Debug, PartialEq)]
pub struct CustomInteraction {
    pub internalize: bool,
    pub target: primitive_types::H160,
    pub value: primitive_types::U256,
    pub call_data: Vec<u8>,
    pub allowances: Vec<Allowance>,
    pub inputs: Vec<Asset>,
    pub outputs: Vec<Asset>,
}

/// One interaction of a solution, tagged by kind on the wire.
#[derive(Clone, Debug, PartialEq)]
pub enum Interaction {
    Liquidity(LiquidityInteraction),
    Custom(CustomInteraction),
}

/// The canonical output handed to the execution layer: clearing prices,
/// trades, and interactions.
#[derive(Clone, Debug, PartialEq)]
pub struct Solution {
    pub prices: Vec<(primitive_types::H160, primitive_types::U256)>,
    pub trades: Vec<Trade>,
    pub interactions: Vec<Interaction>,
}

/// A well-formed solution prices each token at most once: its price list
/// stands for a map.
pub open spec fn solution_wf(s: Solution) -> bool {
    crate::orders::prices_wf(s.prices@)
}

impl Solution {
    /// Returns the trivial solution: no prices, no trades, no
    /// interactions — the well-formed encoding of "no solution found".
    pub fn trivial() -> (r: Self)
        ensures
            r.prices@ == Seq::<(primitive_types::H160, primitive_types::U256)>::empty(),
            r.trades@ == Seq::<Trade>::empty(),
            r.interactions@ == Seq::<Interaction>::empty(),
            solution_wf(r),
    {
        Solution { prices: Vec::new(), trades: Vec::new(), interactions: Vec::new() }
    }
}

proof fn lemma_dec_of_len(n: nat)
    ensures
        dec_of(n).len() >= 1,
        n >= 10 ==> dec_of(n).len() >= 2,
    decreases n,
{
    if n >= 10 {
        lemma_dec_of_len(n / 10);
    }
}

/// Law: the decimal encoding loses nothing: two values with the same
/// decimal rendering are equal, so an amount survives the round trip
/// through its wire string exactly.
pub proof fn lemma_dec_of_injective(a: nat, b: nat)
    requires
        dec_of(a) == dec_of(b),
    ensures
        a == b,
    decreases a,
{
    lemma_dec_of_len(a);
    lemma_dec_of_len(b);
    if a < 10 && b < 10 {
        assert(dec_of(a)[0] == dec_digit(a as int));
        assert(dec_of(b)[0] == dec_digit(b as int));
        assert(dec_digit(a as int) == dec_digit(b as int));
    } else if a < 10 || b < 10 {
        assert(dec_of(a).len() != dec_of(b).len());
    } else {
        assert(dec_of(a) == dec_of(a / 10) + seq![dec_digit((a % 10) as int)]);
        assert(dec_of(b) == dec_of(b / 10) + seq![dec_digit((b % 10) as int)]);
        assert(dec_of(a).last() == dec_digit((a % 10) as int));
        assert(dec_of(b).last() == dec_digit((b % 10) as int));
        assert(dec_digit((a % 10) as int) == dec_digit((b % 10) as int));
        assert(a % 10 == b % 10);
        assert(dec_of(a).drop_last() =~= dec_of(a / 10));
        assert(dec_of(b).drop_last() =~= dec_of(b / 10));
        lemma_dec_of_injective(a / 10, b / 10);
    }
}

proof fn lemma_hex_body_len(b: Seq<u8>)
    ensures
        hex_body(b).len() == 2 * b.len(),
    decreases b.len(),
{
    if b.len() > 0 {
        lemma_hex_body_len(b.drop_last());
    }
}

proof fn lemma_hex_body_injective(a: Seq<u8>, b: Seq<u8>)
    requires
        hex_body(a) == hex_body(b),
    ensures
        a == b,
    decreases a.len(),
{
    lemma_hex_body_len(a);
    lemma_hex_body_len(b);
    if a.len() == 0 {
        assert(a =~= b);
    } else {
        let la = a.last();
        let lb = b.last();
        assert(hex_body(a) == hex_body(a.drop_last()) + seq![
            hex_digit(la as int / 16),
            hex_digit(la as int % 16),
        ]);
        assert(hex_body(b) == hex_body(b.drop_last()) + seq![
            hex_digit(lb as int / 16),
            hex_digit(lb as int % 16),
        ]);
        let n = hex_body(a).len();
        assert(hex_body(a)[n - 1] == hex_digit(la as int % 16));
        assert(hex_body(a)[n - 2] == hex_digit(la as int / 16));
        assert(hex_body(b)[n - 1] == hex_digit(lb as int % 16));
        assert(hex_body(b)[n - 2] == hex_digit(lb as int / 16));
        assert(la as int % 16 == lb as int % 16);
        assert(la as int / 16 == lb as int / 16);
        assert(la == lb);
        assert forall|i: int| 0 <= i < hex_body(a.drop_last()).len() implies hex_body(
            a.drop_last(),
        )[i] == hex_body(b.drop_last())[i] by {
            assert(hex_body(a)[i] == hex_body(a.drop_last())[i]);
            assert(hex_body(b)[i] == hex_body(b.drop_last())[i]);
        }
        assert(hex_body(a.drop_last()) =~= hex_body(b.drop_last()));
        lemma_hex_body_injective(a.drop_last(), b.drop_last());
        assert forall|i: int| 0 <= i < a.len() implies a[i] == b[i] by {
            if i < a.len() - 1 {
                assert(a.drop_last()[i] == a[i]);
                assert(b.drop_last()[i] == b[i]);
            }
        }
        assert(a =~= b);
    }
}

/// Law: the hexadecimal encoding loses nothing: two byte strings with the
/// same rendering are equal, so addresses, uids and call data survive the
/// round trip through their wire strings exactly.
pub proof fn lemma_hex_of_injective(a: Seq<u8>, b: Seq<u8>)
    requires
        hex_of(a) == hex_of(b),
    ensures
        a == b,
{
    assert(hex_body(a) =~= hex_of(a).skip(2));
    assert(hex_body(b) =~= hex_of(b).skip(2));
    lemma_hex_body_injective(a, b);
}

} // verus!
