//! Token amounts of any size, as the chain's big unsigned integers are: a
//! natural number held as 64-bit limbs, least significant first.

use vstd::prelude::*;
use vstd::std_specs::cmp::PartialEqSpecImpl;

verus! {

/// The base of a limb.
pub open spec fn limb_base() -> nat {
    0x1_0000_0000_0000_0000
}

/// `limb_base()` to the power `n`.
pub open spec fn base_pow(n: nat) -> nat
    decreases n,
{
    if n == 0 {
        1
    } else {
        limb_base() * base_pow((n - 1) as nat)
    }
}

/// The limb at position `i`, zero past the end.
pub open spec fn limb(s: Seq<u64>, i: int) -> nat {
    if 0 <= i < s.len() {
        s[i] as nat
    } else {
        0
    }
}

/// The value of the `i` lowest limbs.
pub open spec fn prefix_value(s: Seq<u64>, i: nat) -> nat
    decreases i,
{
    if i == 0 {
        0
    } else {
        prefix_value(s, (i - 1) as nat) + limb(s, i - 1) * base_pow((i - 1) as nat)
    }
}

/// The value of the limbs from position `i` up, as a number of its own.
pub open spec fn suffix_value(s: Seq<u64>, i: nat) -> nat
    decreases s.len() - i,
{
    if i >= s.len() {
        0
    } else {
        limb(s, i as int) + limb_base() * suffix_value(s, i + 1)
    }
}

/// The number that a sequence of limbs denotes.
pub open spec fn limbs_value(s: Seq<u64>) -> nat {
    prefix_value(s, s.len())
}

/// 256 to the power `n`.
pub open spec fn byte_pow(n: nat) -> nat
    decreases n,
{
    if n == 0 {
        1
    } else {
        256 * byte_pow((n - 1) as nat)
    }
}

/// The number that big-endian bytes denote.
pub open spec fn be_value(s: Seq<u8>) -> nat
    decreases s.len(),
{
    if s.len() == 0 {
        0
    } else {
        be_value(s.drop_last()) * 256 + s.last() as nat
    }
}

/// A byte put in front of big-endian bytes adds its weight.
pub proof fn lemma_be_value_prepend(b: u8, s: Seq<u8>)
    ensures
        be_value(seq![b] + s) == b * byte_pow(s.len()) + be_value(s),
    decreases s.len(),
{
    if s.len() == 0 {
        assert((seq![b] + s).drop_last() =~= Seq::<u8>::empty());
        assert(be_value(Seq::<u8>::empty()) == 0);
        assert(byte_pow(0) == 1);
        assert(b * 1 == b);
        assert(be_value(seq![b] + s) == be_value((seq![b] + s).drop_last()) * 256 + (seq![b] + s).last() as nat);
    } else {
        let t = seq![b] + s;
        let sd = s.drop_last();
        lemma_be_value_prepend(b, sd);
        assert(t.drop_last() =~= seq![b] + sd);
        assert(t.last() == s.last());
        let p = byte_pow(sd.len());
        let e = be_value(sd);
        assert(byte_pow(s.len()) == 256 * p);
        assert(be_value(t) == be_value(t.drop_last()) * 256 + t.last() as nat);
        assert(be_value(s) == e * 256 + s.last() as nat);
        assert((b * p + e) * 256 == b * (256 * p) + e * 256) by (nonlinear_arith);
    }
}

/// An amount of tokens, of any size.
#[derive(Debug)]
pub struct Amount {
    pub limbs: Vec<u64>,
}

impl View for Amount {
    type V = nat;

    open spec fn view(&self) -> nat {
        limbs_value(self.limbs@)
    }
}

/// Two amounts are equal when they denote the same number, whatever limbs
/// of value zero either carries at its top.
impl PartialEq for Amount {
    fn eq(&self, other: &Amount) -> (r: bool) {
        self.ge(other) && other.ge(self)
    }
}

impl PartialEqSpecImpl for Amount {
    open spec fn obeys_eq_spec() -> bool {
        true
    }

    open spec fn eq_spec(&self, other: &Amount) -> bool {
        self@ == other@
    }
}

pub proof fn lemma_base_pow_positive(n: nat)
    ensures
        base_pow(n) > 0,
    decreases n,
{
    if n > 0 {
        lemma_base_pow_positive((n - 1) as nat);
        assert(limb_base() * base_pow((n - 1) as nat) > 0) by (nonlinear_arith)
            requires
                base_pow((n - 1) as nat) > 0,
        ;
    }
}

/// Two sequences with the same limbs below `i` have the same low value.
pub proof fn lemma_prefix_agree(s: Seq<u64>, t: Seq<u64>, i: nat)
    requires
        forall|k: int| 0 <= k < i ==> limb(s, k) == limb(t, k),
    ensures
        prefix_value(s, i) == prefix_value(t, i),
    decreases i,
{
    if i > 0 {
        lemma_prefix_agree(s, t, (i - 1) as nat);
    }
}

/// Limbs past the end add nothing.
pub proof fn lemma_prefix_past_end(s: Seq<u64>, i: nat)
    requires
        i >= s.len(),
    ensures
        prefix_value(s, i) == limbs_value(s),
    decreases i,
{
    if i > s.len() {
        lemma_prefix_past_end(s, (i - 1) as nat);
        assert(limb(s, i - 1) == 0);
        assert(prefix_value(s, i) == prefix_value(s, (i - 1) as nat) + limb(s, i - 1) * base_pow((i - 1) as nat));
    }
}

/// The low value of `i` limbs is below `base_pow(i)`.
pub proof fn lemma_prefix_bound(s: Seq<u64>, i: nat)
    ensures
        prefix_value(s, i) < base_pow(i),
    decreases i,
{
    if i > 0 {
        let j = (i - 1) as nat;
        lemma_prefix_bound(s, j);
        let p = prefix_value(s, j);
        let l = limb(s, j as int);
        let b = base_pow(j);
        assert(l < limb_base());
        assert(p + l * b < limb_base() * b) by (nonlinear_arith)
            requires
                p < b,
                l + 1 <= limb_base(),
        ;
    }
}

/// The low value over more limbs is at least that over fewer.
pub proof fn lemma_prefix_monotone(s: Seq<u64>, i: nat, j: nat)
    requires
        i <= j,
    ensures
        prefix_value(s, i) <= prefix_value(s, j),
    decreases j,
{
    if i < j {
        lemma_prefix_monotone(s, i, (j - 1) as nat);
        let b = base_pow((j - 1) as nat);
        let l = limb(s, j - 1);
        assert(l * b >= 0) by (nonlinear_arith)
            requires
                l >= 0,
                b >= 0,
        ;
    }
}

/// The value is zero exactly when every limb is.
pub proof fn lemma_value_zero(s: Seq<u64>)
    ensures
        limbs_value(s) == 0 <==> forall|k: int| 0 <= k < s.len() ==> s[k] == 0,
{
    if forall|k: int| 0 <= k < s.len() ==> s[k] == 0 {
        lemma_zero_prefix(s, s.len());
    } else {
        let k = choose|k: int| 0 <= k < s.len() && s[k] != 0;
        lemma_prefix_monotone(s, (k + 1) as nat, s.len());
        lemma_prefix_monotone(s, 0, k as nat);
        lemma_base_pow_positive(k as nat);
        let b = base_pow(k as nat);
        let l = limb(s, k);
        assert(l * b > 0) by (nonlinear_arith)
            requires
                l > 0,
                b > 0,
        ;
    }
}

proof fn lemma_zero_prefix(s: Seq<u64>, i: nat)
    requires
        forall|k: int| 0 <= k < s.len() ==> s[k] == 0,
    ensures
        prefix_value(s, i) == 0,
    decreases i,
{
    if i > 0 {
        lemma_zero_prefix(s, (i - 1) as nat);
        assert(limb(s, i - 1) == 0);
        assert(limb(s, i - 1) * base_pow((i - 1) as nat) == 0);
    }
}

/// The low value of `i` limbs plus `base_pow(i)` times the rest is the whole.
pub proof fn lemma_prefix_suffix(s: Seq<u64>, i: nat)
    requires
        i <= s.len(),
    ensures
        prefix_value(s, i) + base_pow(i) * suffix_value(s, i) == limbs_value(s),
    decreases s.len() - i,
{
    if i < s.len() {
        lemma_prefix_suffix(s, i + 1);
        let b = base_pow(i);
        let l = limb(s, i as int);
        let r = suffix_value(s, i + 1);
        assert(base_pow(i + 1) == limb_base() * b);
        assert(prefix_value(s, i + 1) == prefix_value(s, i) + l * b);
        assert(suffix_value(s, i) == l + limb_base() * r);
        assert(b * (l + limb_base() * r) == l * b + (limb_base() * b) * r) by (nonlinear_arith);
    } else {
        assert(suffix_value(s, i) == 0);
        assert(base_pow(i) * 0 == 0);
    }
}

/// Two sequences of one length with the same limbs from `i` up have the
/// same high value.
pub proof fn lemma_suffix_agree(s: Seq<u64>, t: Seq<u64>, i: nat)
    requires
        s.len() == t.len(),
        forall|k: int| i <= k < s.len() ==> s[k] == t[k],
    ensures
        suffix_value(s, i) == suffix_value(t, i),
    decreases s.len() - i,
{
    if i < s.len() {
        lemma_suffix_agree(s, t, i + 1);
    }
}

impl Amount {
    /// The amount zero.
    pub fn zero() -> (r: Amount)
        ensures
            r@ == 0,
    {
        Amount { limbs: Vec::new() }
    }

    /// The amount with the value of a `u128`.
    pub fn from_u128(x: u128) -> (r: Amount)
        ensures
            r@ == x,
    {
        let lo = (x % 0x1_0000_0000_0000_0000) as u64;
        let hi = (x / 0x1_0000_0000_0000_0000) as u64;
        let mut limbs = Vec::new();
        limbs.push(lo);
        limbs.push(hi);
        proof {
            let s = limbs@;
            assert(base_pow(0) == 1);
            assert(base_pow(1) == limb_base()) by {
                assert(base_pow(0) == 1);
            }
            assert(prefix_value(s, 0) == 0);
            assert(limb(s, 0) == lo);
            assert(limb(s, 1) == hi);
            assert(prefix_value(s, 1) == prefix_value(s, 0) + limb(s, 0) * base_pow(0));
            assert(prefix_value(s, 1) == lo);
            assert(prefix_value(s, 2) == prefix_value(s, 1) + limb(s, 1) * base_pow(1));
            assert(prefix_value(s, 2) == lo + hi * limb_base());
        }
        Amount { limbs }
    }

    /// Whether the amount is zero.
    pub fn is_zero(&self) -> (r: bool)
        ensures
            r == (self@ == 0),
    {
        proof {
            lemma_value_zero(self.limbs@);
        }
        let mut i: usize = 0;
        while i < self.limbs.len()
            invariant
                i <= self.limbs@.len(),
                forall|k: int| 0 <= k < i ==> self.limbs@[k] == 0,
            decreases self.limbs@.len() - i,
        {
            if self.limbs[i] != 0 {
                proof {
                    assert(self.limbs@[i as int] != 0);
                    assert(!(forall|k: int| 0 <= k < self.limbs@.len() ==> self.limbs@[k] == 0));
                    lemma_value_zero(self.limbs@);
                }
                return false;
            }
            i = i + 1;
        }
        true
    }

    /// A copy of the amount.
    pub fn copy(&self) -> (r: Amount)
        ensures
            r@ == self@,
    {
        let limbs = self.limbs.clone();
        proof {
            assert(limbs@ =~= self.limbs@);
        }
        Amount { limbs }
    }

    /// The sum of two amounts.
    pub fn add(&self, other: &Amount) -> (r: Amount)
        ensures
            r@ == self@ + other@,
    {
        let a = &self.limbs;
        let b = &other.limbs;
        let n = if a.len() >= b.len() { a.len() } else { b.len() };
        let mut out: Vec<u64> = Vec::new();
        let mut carry: u64 = 0;
        let mut i: usize = 0;
        while i < n
            invariant
                n == (if a@.len() >= b@.len() { a@.len() } else { b@.len() }),
                i <= n,
                out@.len() == i,
                carry <= 1,
                prefix_value(a@, i as nat) + prefix_value(b@, i as nat) == prefix_value(out@, i as nat)
                    + carry * base_pow(i as nat),
            decreases n - i,
        {
            let x: u64 = if i < a.len() { a[i] } else { 0 };
            let y: u64 = if i < b.len() { b[i] } else { 0 };
            assert(x == limb(a@, i as int));
            assert(y == limb(b@, i as int));
            let t: u128 = x as u128 + y as u128 + carry as u128;
            let digit = (t % 0x1_0000_0000_0000_0000) as u64;
            let next = (t / 0x1_0000_0000_0000_0000) as u64;
            let ghost old_out = out@;
            out.push(digit);
            proof {
                lemma_prefix_agree(old_out, out@, i as nat);
                assert(limb(out@, i as int) == digit);
                let p = base_pow(i as nat);
                assert(base_pow((i + 1) as nat) == limb_base() * p);
                assert(prefix_value(out@, (i + 1) as nat) == prefix_value(out@, i as nat) + limb(out@, i as int) * p);
                assert(prefix_value(a@, (i + 1) as nat) == prefix_value(a@, i as nat) + limb(a@, i as int) * p);
                assert(prefix_value(b@, (i + 1) as nat) == prefix_value(b@, i as nat) + limb(b@, i as int) * p);
                assert(t == digit + next * limb_base());
                let pa = prefix_value(a@, i as nat);
                let pb = prefix_value(b@, i as nat);
                let po = prefix_value(old_out, i as nat);
                assert(pa + x * p + (pb + y * p) == po + digit * p + next * (limb_base() * p)) by (nonlinear_arith)
                    requires
                        x + y + carry == digit + next * limb_base(),
                        pa + pb == po + carry * p,
                ;
            }
            carry = next;
            i = i + 1;
        }
        let ghost before = out@;
        if carry > 0 {
            out.push(carry);
            proof {
                lemma_prefix_agree(before, out@, n as nat);
            }
        }
        proof {
            lemma_prefix_past_end(a@, n as nat);
            lemma_prefix_past_end(b@, n as nat);
            if carry == 0 {
                assert(limbs_value(out@) == prefix_value(out@, n as nat));
            } else {
                assert(limb(out@, n as int) == carry);
                assert(carry * base_pow(n as nat) == limb(out@, n as int) * base_pow(n as nat));
            }
        }
        Amount { limbs: out }
    }

    /// The difference `self - other`, or `None` when `other` is larger.
    pub fn checked_sub(&self, other: &Amount) -> (r: Option<Amount>)
        ensures
            match r {
                Some(d) => self@ >= other@ && d@ == self@ - other@,
                None => self@ < other@,
            },
    {
        let a = &self.limbs;
        let b = &other.limbs;
        let n = if a.len() >= b.len() { a.len() } else { b.len() };
        let mut out: Vec<u64> = Vec::new();
        let mut borrow: u64 = 0;
        let mut i: usize = 0;
        while i < n
            invariant
                n == (if a@.len() >= b@.len() { a@.len() } else { b@.len() }),
                i <= n,
                out@.len() == i,
                borrow <= 1,
                prefix_value(a@, i as nat) + borrow * base_pow(i as nat) == prefix_value(b@, i as nat)
                    + prefix_value(out@, i as nat),
            decreases n - i,
        {
            let x: u64 = if i < a.len() { a[i] } else { 0 };
            let y: u64 = if i < b.len() { b[i] } else { 0 };
            assert(x == limb(a@, i as int));
            assert(y == limb(b@, i as int));
            let need: u128 = y as u128 + borrow as u128;
            let digit: u64;
            let next: u64;
            if (x as u128) >= need {
                digit = (x as u128 - need) as u64;
                next = 0;
            } else {
                digit = (x as u128 + 0x1_0000_0000_0000_0000 - need) as u64;
                next = 1;
            }
            let ghost old_out = out@;
            out.push(digit);
            proof {
                lemma_prefix_agree(old_out, out@, i as nat);
                assert(limb(out@, i as int) == digit);
                let p = base_pow(i as nat);
                assert(base_pow((i + 1) as nat) == limb_base() * p);
                assert(prefix_value(out@, (i + 1) as nat) == prefix_value(out@, i as nat) + limb(out@, i as int) * p);
                assert(prefix_value(a@, (i + 1) as nat) == prefix_value(a@, i as nat) + limb(a@, i as int) * p);
                assert(prefix_value(b@, (i + 1) as nat) == prefix_value(b@, i as nat) + limb(b@, i as int) * p);
                assert(x + next * limb_base() == y + borrow + digit);
                assert((x + next * limb_base()) * p == (y + borrow + digit) * p);
                assert(x * p + next * (limb_base() * p) == y * p + borrow * p + digit * p) by (nonlinear_arith)
                    requires
                        (x + next * limb_base()) * p == (y + borrow + digit) * p,
                ;
            }
            borrow = next;
            i = i + 1;
        }
        proof {
            lemma_prefix_past_end(a@, n as nat);
            lemma_prefix_past_end(b@, n as nat);
            lemma_prefix_bound(out@, n as nat);
        }
        if borrow == 0 {
            Some(Amount { limbs: out })
        } else {
            None
        }
    }

    /// Whether `self >= other`.
    pub fn ge(&self, other: &Amount) -> (r: bool)
        ensures
            r == (self@ >= other@),
    {
        self.checked_sub(other).is_some()
    }

    /// The product of an amount and a 64-bit factor.
    pub fn mul_small(&self, m: u64) -> (r: Amount)
        ensures
            r@ == self@ * m,
    {
        let a = &self.limbs;
        let n = a.len();
        let mut out: Vec<u64> = Vec::new();
        let mut carry: u64 = 0;
        let mut i: usize = 0;
        assert(prefix_value(a@, 0) == 0);
        assert(prefix_value(out@, 0) == 0);
        assert(0 * m == 0);
        while i < n
            invariant
                n == a@.len(),
                i <= n,
                out@.len() == i,
                prefix_value(a@, i as nat) * m == prefix_value(out@, i as nat) + carry * base_pow(i as nat),
            decreases n - i,
        {
            let x = a[i];
            assert(x == limb(a@, i as int));
            proof {
                assert(x * m <= 0xffff_ffff_ffff_ffff * 0xffff_ffff_ffff_ffff) by (nonlinear_arith)
                    requires
                        x <= 0xffff_ffff_ffff_ffff,
                        m <= 0xffff_ffff_ffff_ffff,
                ;
            }
            let t: u128 = (x as u128) * (m as u128) + carry as u128;
            let digit = (t % 0x1_0000_0000_0000_0000) as u64;
            let next = (t / 0x1_0000_0000_0000_0000) as u64;
            let ghost old_out = out@;
            out.push(digit);
            proof {
                lemma_prefix_agree(old_out, out@, i as nat);
                assert(limb(out@, i as int) == digit);
                let p = base_pow(i as nat);
                assert(base_pow((i + 1) as nat) == limb_base() * p);
                assert(prefix_value(out@, (i + 1) as nat) == prefix_value(out@, i as nat) + limb(out@, i as int) * p);
                assert(prefix_value(a@, (i + 1) as nat) == prefix_value(a@, i as nat) + limb(a@, i as int) * p);
                let pa = prefix_value(a@, i as nat);
                let po = prefix_value(old_out, i as nat);
                assert(t == digit + next * limb_base());
                assert((pa + x * p) * m == (po + digit * p) + next * (limb_base() * p)) by (nonlinear_arith)
                    requires
                        pa * m == po + carry * p,
                        x * m + carry == digit + next * limb_base(),
                ;
            }
            carry = next;
            i = i + 1;
        }
        let ghost before = out@;
        if carry > 0 {
            out.push(carry);
            proof {
                lemma_prefix_agree(before, out@, n as nat);
                assert(limb(out@, n as int) == carry);
            }
        }
        Amount { limbs: out }
    }

    /// The quotient of an amount by a positive 64-bit divisor, rounded down.
    pub fn div_small(&self, d: u64) -> (r: Amount)
        requires
            d > 0,
        ensures
            r@ == self@ / (d as nat),
    {
        self.div_rem_small(d).0
    }

    /// The quotient, rounded down, and the remainder of an amount by a
    /// positive 64-bit divisor.
    pub fn div_rem_small(&self, d: u64) -> (r: (Amount, u64))
        requires
            d > 0,
        ensures
            r.0@ == self@ / (d as nat),
            r.1 == self@ % (d as nat),
    {
        let a = &self.limbs;
        let n = a.len();
        let mut q: Vec<u64> = Vec::new();
        let mut k: usize = 0;
        while k < n
            invariant
                k <= n,
                q@.len() == k,
                forall|j: int| 0 <= j < k ==> q@[j] == 0,
            decreases n - k,
        {
            q.push(0);
            k = k + 1;
        }
        let mut rem: u64 = 0;
        let mut i: usize = n;
        assert(suffix_value(a@, n as nat) == 0);
        assert(suffix_value(q@, n as nat) == 0);
        while i > 0
            invariant
                n == a@.len(),
                q@.len() == n,
                i <= n,
                rem < d,
                suffix_value(a@, i as nat) == d * suffix_value(q@, i as nat) + rem,
            decreases i,
        {
            let x = a[i - 1];
            assert(x == limb(a@, i - 1));
            proof {
                assert(rem * 0x1_0000_0000_0000_0000 + x < d * 0x1_0000_0000_0000_0000) by (nonlinear_arith)
                    requires
                        rem + 1 <= d,
                        x < 0x1_0000_0000_0000_0000,
                ;
            }
            let t: u128 = (rem as u128) * 0x1_0000_0000_0000_0000 + x as u128;
            let qd = t / (d as u128);
            let r2 = t % (d as u128);
            proof {
                assert(qd < 0x1_0000_0000_0000_0000) by (nonlinear_arith)
                    requires
                        t < d * 0x1_0000_0000_0000_0000,
                        qd == t / (d as u128),
                        d > 0,
                ;
                assert(t == qd * d + r2) by (nonlinear_arith)
                    requires
                        d > 0,
                        qd == t / (d as u128),
                        r2 == t % (d as u128),
                ;
            }
            let ghost old_q = q@;
            q.set(i - 1, qd as u64);
            proof {
                lemma_suffix_agree(old_q, q@, i as nat);
                assert(limb(q@, i - 1) == qd);
                let sq = suffix_value(q@, i as nat);
                let sa = suffix_value(a@, i as nat);
                assert(suffix_value(q@, (i - 1) as nat) == qd + limb_base() * sq);
                assert(suffix_value(a@, (i - 1) as nat) == x + limb_base() * sa);
                assert(x + limb_base() * sa == d * (qd + limb_base() * sq) + r2) by (nonlinear_arith)
                    requires
                        sa == d * sq + rem,
                        t == rem * limb_base() + x,
                        t == qd * d + r2,
                ;
            }
            rem = r2 as u64;
            i = i - 1;
        }
        proof {
            lemma_prefix_suffix(a@, 0);
            lemma_prefix_suffix(q@, 0);
            assert(base_pow(0) == 1);
            assert(prefix_value(a@, 0) == 0);
            assert(prefix_value(q@, 0) == 0);
            let sa = suffix_value(a@, 0);
            let sq = suffix_value(q@, 0);
            assert(limbs_value(a@) == 0 + base_pow(0) * sa);
            assert(limbs_value(q@) == 0 + base_pow(0) * sq);
            assert(limbs_value(a@) == sa) by (nonlinear_arith)
                requires
                    limbs_value(a@) == 0 + base_pow(0) * sa,
                    base_pow(0) == 1,
            ;
            assert(limbs_value(q@) == sq) by (nonlinear_arith)
                requires
                    limbs_value(q@) == 0 + base_pow(0) * sq,
                    base_pow(0) == 1,
            ;
            assert(limbs_value(a@) == limbs_value(q@) * d + rem) by (nonlinear_arith)
                requires
                    limbs_value(a@) == d * limbs_value(q@) + rem,
            ;
            vstd::arithmetic::div_mod::lemma_fundamental_div_mod_converse(
                limbs_value(a@) as int,
                d as int,
                limbs_value(q@) as int,
                rem as int,
            );
        }
        (Amount { limbs: q }, rem)
    }

    /// The amount that big-endian bytes denote.
    pub fn from_be_bytes(bytes: &[u8]) -> (r: Amount)
        ensures
            r@ == be_value(bytes@),
    {
        let mut acc = Amount::zero();
        let mut i: usize = 0;
        while i < bytes.len()
            invariant
                i <= bytes@.len(),
                acc@ == be_value(bytes@.take(i as int)),
            decreases bytes@.len() - i,
        {
            let shifted = acc.mul_small(256);
            let byte = Amount::from_u128(bytes[i] as u128);
            acc = shifted.add(&byte);
            proof {
                assert(bytes@.take(i + 1).drop_last() =~= bytes@.take(i as int));
            }
            i = i + 1;
        }
        proof {
            assert(bytes@.take(bytes@.len() as int) =~= bytes@);
        }
        acc
    }

    /// The amount's big-endian bytes, without leading zeros (none for zero).
    pub fn to_be_bytes(&self) -> (r: Vec<u8>)
        ensures
            be_value(r@) == self@,
            r@.len() > 0 ==> r@[0] != 0,
    {
        let mut bytes: Vec<u8> = Vec::new();
        let mut rest = self.copy();
        assert(byte_pow(0) == 1);
        assert(be_value(bytes@) == 0);
        assert(rest@ * 1 == rest@);
        assert(self@ == rest@ * byte_pow(0) + be_value(bytes@));
        while !rest.is_zero()
            invariant
                self@ == rest@ * byte_pow(bytes@.len()) + be_value(bytes@),
                rest@ == 0 && bytes@.len() > 0 ==> bytes@[0] != 0,
            decreases rest@,
        {
            let (quotient, byte) = rest.div_rem_small(256);
            let ghost n = bytes@.len();
            let ghost old_bytes = bytes@;
            proof {
                lemma_be_value_prepend(byte as u8, old_bytes);
                assert(rest@ == quotient@ * 256 + byte) by (nonlinear_arith)
                    requires
                        quotient@ == rest@ / 256,
                        byte == rest@ % 256,
                ;
                assert(rest@ * byte_pow(n) == quotient@ * (256 * byte_pow(n)) + byte * byte_pow(n)) by (nonlinear_arith)
                    requires
                        rest@ == quotient@ * 256 + byte,
                ;
            }
            bytes.insert(0, byte as u8);
            proof {
                assert(bytes@ =~= seq![byte as u8] + old_bytes);
                assert(byte_pow(n + 1) == 256 * byte_pow(n));
            }
            rest = quotient;
        }
        bytes
    }
}

} // verus!
