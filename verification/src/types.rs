//! Shared value types: addresses, coins, message metadata and attributes.

use vstd::prelude::*;

verus! {

/// A validated account or contract address.
///
/// Validation itself is the host's concern: the surrounding adapter runs the
/// host's address validator and only then wraps the string.  Inside the
/// library an `Addr` is an opaque identifier compared by content.
#[derive(Debug)]
pub struct Addr {
    repr: String,
}

impl View for Addr {
    type V = Seq<char>;

    closed spec fn view(&self) -> Seq<char> {
        self.repr@
    }
}

impl Addr {
    /// Wraps an already validated address string.
    pub fn new(s: String) -> (a: Addr)
        ensures
            a@ == s@,
    {
        Addr { repr: s }
    }

    pub fn as_str(&self) -> (r: &str)
        ensures
            r@ == self@,
    {
        self.repr.as_str()
    }

    pub fn into_string(self) -> (r: String)
        ensures
            r@ == self@,
    {
        self.repr
    }
}

impl Clone for Addr {
    fn clone(&self) -> (r: Self)
        ensures
            r@ == self@,
    {
        Addr { repr: self.repr.clone() }
    }
}

impl PartialEq for Addr {
    fn eq(&self, other: &Addr) -> (r: bool) {
        self.repr == other.repr
    }
}

impl Eq for Addr {
}

impl vstd::std_specs::cmp::PartialEqSpecImpl for Addr {
    open spec fn obeys_eq_spec() -> bool {
        true
    }

    open spec fn eq_spec(&self, other: &Addr) -> bool {
        self@ == other@
    }
}

/// The view of a coin: a denomination and a whole-number amount.
#[verifier::ext_equal]
pub struct CoinV {
    pub denom: Seq<char>,
    pub amount: u128,
}

/// An amount of one token denomination.
#[derive(Debug, PartialEq)]
pub struct Coin {
    pub denom: String,
    pub amount: u128,
}

impl View for Coin {
    type V = CoinV;

    open spec fn view(&self) -> CoinV {
        CoinV { denom: self.denom@, amount: self.amount }
    }
}

impl Coin {
    pub fn new(denom: &str, amount: u128) -> (c: Coin)
        ensures
            c@ == (CoinV { denom: denom@, amount: amount }),
    {
        Coin { denom: denom.to_owned(), amount }
    }
}

impl Clone for Coin {
    fn clone(&self) -> (r: Self)
        ensures
            r@ == self@,
    {
        Coin { denom: self.denom.clone(), amount: self.amount }
    }
}

/// The views of a list of coins.
pub open spec fn coins_view(s: Seq<Coin>) -> Seq<CoinV> {
    s.map_values(|c: Coin| c@)
}

/// The view of the metadata accompanying a call.
#[verifier::ext_equal]
pub struct InfoV {
    pub sender: Seq<char>,
    pub funds: Seq<CoinV>,
}

/// Who makes the call and which funds are attached to it.
pub struct MessageInfo {
    pub sender: Addr,
    pub funds: Vec<Coin>,
}

impl View for MessageInfo {
    type V = InfoV;

    open spec fn view(&self) -> InfoV {
        InfoV { sender: self.sender@, funds: coins_view(self.funds@) }
    }
}

/// The view of one response attribute.
#[verifier::ext_equal]
pub struct AttrV {
    pub key: Seq<char>,
    pub value: Seq<char>,
}

/// Constructor shorthand for attribute views in contracts.
pub open spec fn attr(key: Seq<char>, value: Seq<char>) -> AttrV {
    AttrV { key, value }
}

/// A key/value pair reported back to the caller of an operation.
#[derive(Debug, PartialEq)]
pub struct Attribute {
    pub key: String,
    pub value: String,
}

impl View for Attribute {
    type V = AttrV;

    open spec fn view(&self) -> AttrV {
        AttrV { key: self.key@, value: self.value@ }
    }
}

impl Attribute {
    pub fn new(key: &str, value: &str) -> (a: Attribute)
        ensures
            a@ == attr(key@, value@),
    {
        Attribute { key: key.to_owned(), value: value.to_owned() }
    }
}

impl Clone for Attribute {
    fn clone(&self) -> (r: Self)
        ensures
            r@ == self@,
    {
        Attribute { key: self.key.clone(), value: self.value.clone() }
    }
}

/// The views of a list of attributes.
pub open spec fn attrs_view(s: Seq<Attribute>) -> Seq<AttrV> {
    s.map_values(|a: Attribute| a@)
}

/// The decimal digit character for `d`.
pub open spec fn dec_digit(d: int) -> char {
    ((48 + d) as u8) as char
}

/// The decimal rendering of `n`, most significant digit first.
pub open spec fn dec_str(n: nat) -> Seq<char>
    decreases n,
{
    if n < 10 {
        seq![dec_digit(n as int)]
    } else {
        dec_str(n / 10).push(dec_digit((n % 10) as int))
    }
}

/// Relies on `String::push`: appends exactly one character.
#[verifier::external_body]
fn push_char(s: &mut String, c: char)
    ensures
        final(s)@ == old(s)@.push(c),
{
    s.push(c)
}

proof fn lemma_push_reverse<A>(s: Seq<A>, c: A)
    ensures
        s.push(c).reverse() =~= seq![c] + s.reverse(),
{
}

/// Renders an amount in decimal, as it appears in response attributes.
pub fn u128_to_dec(n: u128) -> (s: String)
    ensures
        s@ == dec_str(n as nat),
{
    let mut digits: Vec<char> = Vec::new();
    let mut m = n;
    while m >= 10
        invariant
            dec_str(n as nat) =~= dec_str(m as nat) + digits@.reverse(),
        decreases m,
    {
        let d: u8 = (m % 10) as u8;
        let c: char = (48 + d) as char;
        let ghost pre = digits@;
        digits.push(c);
        m = m / 10;
        proof {
            lemma_push_reverse(pre, c);
            assert(dec_str(n as nat) =~= dec_str(m as nat) + digits@.reverse());
        }
    }
    let d: u8 = (m % 10) as u8;
    let c: char = (48 + d) as char;
    let ghost pre = digits@;
    digits.push(c);
    proof {
        lemma_push_reverse(pre, c);
        assert(dec_str(m as nat) =~= seq![c]);
        assert(dec_str(n as nat) =~= digits@.reverse());
    }
    let mut s = String::new();
    let total = digits.len();
    let mut t: usize = 0;
    while t < total
        invariant
            total == digits@.len(),
            t <= total,
            s@ =~= digits@.reverse().take(t as int),
        decreases total - t,
    {
        let c = digits[total - 1 - t];
        push_char(&mut s, c);
        t = t + 1;
        proof {
            assert(digits@.reverse()[t - 1] == digits@[total - t]);
            assert(s@ =~= digits@.reverse().take(t as int));
        }
    }
    proof {
        assert(digits@.reverse().take(total as int) =~= digits@.reverse());
    }
    s
}

} // verus!
