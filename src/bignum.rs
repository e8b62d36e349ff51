//! A variable-length decimal counter, as used by play-count frames.
use vstd::prelude::*;
use vstd::string::StringSliceAdditionalSpecFns;
use crate::text::string_of_chars;

verus! {

/// A variable-length integer used to store, for example, playback counts.
/// It holds two base-10 digits per limb, least significant limb first, with no
/// zero limb at the most significant end.
#[derive(Debug, Clone, PartialEq, Eq)]
pub struct BigNum {
    data: Vec<u8>,
}

/// The number that base-100 limbs stand for, least significant limb first.
pub open spec fn limbs_value(s: Seq<u8>) -> nat
    decreases s.len(),
{
    if s.len() == 0 {
        0
    } else {
        s[0] as nat + 100 * limbs_value(s.drop_first())
    }
}

/// Every limb is a pair of decimal digits.
pub open spec fn limbs_decimal(s: Seq<u8>) -> bool {
    forall|i: int| 0 <= i < s.len() ==> s[i] < 100
}

/// The limbs without their most significant zero limbs.
pub open spec fn strip_zeros(s: Seq<u8>) -> Seq<u8>
    decreases s.len(),
{
    if s.len() == 0 {
        s
    } else if s.last() == 0 {
        strip_zeros(s.drop_last())
    } else {
        s
    }
}

/// The limbs after adding one: nines roll over to zero and carry.
pub open spec fn incr_spec(s: Seq<u8>) -> Seq<u8>
    decreases s.len(),
{
    if s.len() == 0 {
        seq![1u8]
    } else if s[0] >= 99 {
        seq![0u8] + incr_spec(s.drop_first())
    } else {
        seq![(s[0] + 1) as u8] + s.drop_first()
    }
}

/// The two decimal digits of a limb.
pub open spec fn limb_chars(l: u8) -> Seq<char> {
    seq![((l / 10) + 48) as char, ((l % 10) + 48) as char]
}

/// The limbs as pairs of digits, most significant first.
pub open spec fn limbs_chars(s: Seq<u8>) -> Seq<char>
    decreases s.len(),
{
    if s.len() == 0 {
        seq![]
    } else {
        limbs_chars(s.drop_first()) + limb_chars(s[0])
    }
}

/// The decimal text of normalized limbs: the top limb without a leading zero digit.
pub open spec fn decimal_text(s: Seq<u8>) -> Seq<char> {
    if s.len() == 0 {
        seq!['0']
    } else if s.last() < 10 {
        seq![((s.last() % 10) + 48) as char] + limbs_chars(s.drop_last())
    } else {
        limb_chars(s.last()) + limbs_chars(s.drop_last())
    }
}

/// The value of a decimal digit byte.
pub open spec fn digit_value(b: u8) -> u8 {
    (b - 48) as u8
}

/// The limbs that a string of decimal digits gives, read from its right end
/// two digits at a time.
pub open spec fn limbs_of_digits(b: Seq<u8>) -> Seq<u8>
    decreases b.len(),
{
    if b.len() == 0 {
        seq![]
    } else if b.len() == 1 {
        seq![digit_value(b[0])]
    } else {
        seq![(digit_value(b[b.len() - 2]) * 10 + digit_value(b[b.len() - 1])) as u8]
            + limbs_of_digits(b.subrange(0, b.len() - 2))
    }
}

/// Whether every byte is an ASCII decimal digit.
pub open spec fn all_digits(b: Seq<u8>) -> bool {
    forall|i: int| 0 <= i < b.len() ==> 48 <= #[trigger] b[i] <= 57
}

proof fn lemma_value_push_zero(s: Seq<u8>)
    ensures
        limbs_value(s.push(0)) == limbs_value(s),
    decreases s.len(),
{
    assert(limbs_value(s.push(0)) == s.push(0)[0] + 100 * limbs_value(s.push(0).drop_first()));
    if s.len() == 0 {
        assert(s.push(0).drop_first() =~= Seq::<u8>::empty());
        assert(limbs_value(Seq::<u8>::empty()) == 0);
    } else {
        assert(s.push(0).drop_first() =~= s.drop_first().push(0));
        lemma_value_push_zero(s.drop_first());
    }
}

proof fn lemma_strip_zeros(s: Seq<u8>)
    ensures
        limbs_value(strip_zeros(s)) == limbs_value(s),
        strip_zeros(s).len() == 0 || strip_zeros(s).last() != 0,
        strip_zeros(s).len() <= s.len(),
        strip_zeros(s) =~= s.subrange(0, strip_zeros(s).len() as int),
    decreases s.len(),
{
    if s.len() > 0 && s.last() == 0 {
        lemma_strip_zeros(s.drop_last());
        assert(s.drop_last().push(0) =~= s);
        lemma_value_push_zero(s.drop_last());
    }
}

proof fn lemma_incr(s: Seq<u8>)
    requires
        limbs_decimal(s),
    ensures
        limbs_value(incr_spec(s)) == limbs_value(s) + 1,
        limbs_decimal(incr_spec(s)),
    decreases s.len(),
{
    if s.len() == 0 {
        assert(seq![1u8].drop_first() =~= Seq::<u8>::empty());
        assert(limbs_value(seq![1u8]) == 1 + 100 * limbs_value(seq![1u8].drop_first()));
    } else if s[0] >= 99 {
        lemma_incr(s.drop_first());
        let t = seq![0u8] + incr_spec(s.drop_first());
        assert(t.drop_first() =~= incr_spec(s.drop_first()));
        assert(limbs_value(t) == 0 + 100 * limbs_value(t.drop_first()));
        assert(s[0] == 99);
    } else {
        let t = seq![(s[0] + 1) as u8] + s.drop_first();
        assert(t.drop_first() =~= s.drop_first());
        assert(limbs_value(t) == (s[0] + 1) + 100 * limbs_value(t.drop_first()));
    }
}

impl BigNum {
    /// The limbs of the number, least significant first.
    pub closed spec fn limbs(&self) -> Seq<u8> {
        self.data@
    }

    /// The number this value stands for.
    pub open spec fn value(&self) -> nat {
        limbs_value(self.limbs())
    }

    /// Whether the top limb is not zero.
    pub open spec fn normalized(&self) -> bool {
        self.limbs().len() == 0 || self.limbs().last() != 0
    }

    /// Create a new bignum with the given limbs (least significant first) as
    /// its backing store. Zero limbs at the most significant end are dropped.
    pub fn new(data: Vec<u8>) -> (r: BigNum)
        ensures
            r.limbs() == strip_zeros(data@),
            r.value() == limbs_value(data@),
            r.normalized(),
    {
        let mut data = data;
        let ghost orig = data@;
        proof {
            lemma_strip_zeros(orig);
        }
        while data.len() > 0 && data[data.len() - 1] == 0
            invariant
                strip_zeros(orig) == strip_zeros(data@),
            decreases data@.len(),
        {
            let ghost before = data@;
            data.pop();
            assert(data@ =~= before.drop_last());
        }
        BigNum { data }
    }

    /// The limbs, least significant first.
    pub fn as_bytes(&self) -> (r: &[u8])
        ensures
            r@ == self.limbs(),
    {
        self.data.as_slice()
    }

    /// Increments the value stored in the bignum by 1.
    pub fn incr(&mut self)
        ensures
            final(self).limbs() == incr_spec(old(self).limbs()),
            limbs_decimal(old(self).limbs()) ==> final(self).value() == old(self).value() + 1,
            limbs_decimal(old(self).limbs()) ==> limbs_decimal(final(self).limbs()),
            old(self).normalized() ==> final(self).normalized(),
    {
        let ghost orig = self.data@;
        let n = self.data.len();
        let mut i: usize = 0;
        assert(orig.subrange(0, n as int) =~= orig);
        assert(Seq::new(0, |k: int| 0u8) + incr_spec(orig) =~= incr_spec(orig));
        while i < n && self.data[i] >= 99
            invariant
                n == orig.len(),
                self.data@.len() == n,
                i <= n,
                self.data@.subrange(i as int, n as int) == orig.subrange(i as int, n as int),
                forall|k: int| 0 <= k < i ==> self.data@[k] == 0,
                incr_spec(orig) == Seq::new(i as nat, |k: int| 0u8) + incr_spec(orig.subrange(i as int, n as int)),
            decreases n - i,
        {
            let ghost rest = orig.subrange(i as int, n as int);
            assert(rest.drop_first() =~= orig.subrange(i + 1, n as int));
            assert(rest[0] == self.data@[i as int]);
            self.data.set(i, 0);
            i = i + 1;
            assert(incr_spec(orig) =~= Seq::new(i as nat, |k: int| 0u8) + incr_spec(orig.subrange(i as int, n as int)));
            assert(self.data@.subrange(i as int, n as int) =~= orig.subrange(i as int, n as int));
        }
        if i < n {
            let ghost rest = orig.subrange(i as int, n as int);
            assert(rest.drop_first() =~= orig.subrange(i + 1, n as int));
            assert(rest[0] == self.data@[i as int]);
            let v = self.data[i];
            let ghost pre = self.data@;
            self.data.set(i, v + 1);
            proof {
                assert(incr_spec(rest) == seq![(rest[0] + 1) as u8] + rest.drop_first());
                assert(self.data@ =~= incr_spec(orig)) by {
                    assert forall|k: int| i < k < n implies self.data@[k] == orig[k] by {
                        assert(pre[k] == pre.subrange(i as int, n as int)[k - i]);
                        assert(orig[k] == orig.subrange(i as int, n as int)[k - i]);
                    }
                }
            }
        } else {
            self.data.push(1);
            assert(orig.subrange(n as int, n as int) =~= Seq::<u8>::empty());
            assert(incr_spec(Seq::<u8>::empty()) == seq![1u8]);
            assert(self.data@ =~= incr_spec(orig));
        }
        proof {
            if limbs_decimal(orig) {
                lemma_incr(orig);
            } else {
                let s = incr_spec(orig);
                assert(s.len() > 0);
            }
            lemma_incr_top(orig);
        }
    }

    /// Writes the number in decimal, with no leading zeros.
    pub fn to_string(&self) -> (r: String)
        requires
            limbs_decimal(self.limbs()),
            self.normalized(),
        ensures
            r@ == decimal_text(self.limbs()),
    {
        let n = self.data.len();
        let mut out: Vec<char> = Vec::new();
        if n == 0 {
            out.push('0');
            assert(out@ =~= seq!['0']);
            return string_of_chars(out.as_slice());
        }
        let top = self.data[n - 1];
        if top >= 10 {
            out.push(((top / 10) + 48) as char);
        }
        out.push(((top % 10) + 48) as char);
        let ghost head = out@;
        proof {
            assert(head =~= decimal_text(self.limbs()).subrange(0, head.len() as int));
        }
        let mut i: usize = n - 1;
        while i > 0
            invariant
                n == self.data@.len(),
                n > 0,
                i < n,
                out@ == head + limbs_chars(self.data@.subrange(i as int, n - 1)).reverse().reverse(),
            decreases i,
        {
            let l = self.data[i - 1];
            out.push(((l / 10) + 48) as char);
            out.push(((l % 10) + 48) as char);
            proof {
                let a = self.data@.subrange(i - 1, n - 1);
                assert(a.drop_first() =~= self.data@.subrange(i as int, n - 1));
                assert(limbs_chars(a) == limbs_chars(a.drop_first()) + limb_chars(a[0]));
                assert(limbs_chars(a).reverse().reverse() =~= limbs_chars(a));
                assert(limbs_chars(a.drop_first()).reverse().reverse() =~= limbs_chars(a.drop_first()));
            }
            i = i - 1;
            assert(out@ =~= head + limbs_chars(self.data@.subrange(i as int, n - 1)).reverse().reverse());
        }
        proof {
            assert(self.data@.subrange(0, n - 1) =~= self.limbs().drop_last());
            assert(limbs_chars(self.limbs().drop_last()).reverse().reverse() =~= limbs_chars(self.limbs().drop_last()));
            assert(out@ =~= decimal_text(self.limbs()));
        }
        string_of_chars(out.as_slice())
    }

    /// Reads a string of decimal digits, least significant pair first. Returns
    /// `None` if any character is not a decimal digit.
    pub fn from_decimal(s: &str) -> (r: Option<BigNum>)
        ensures
            r is Some <==> all_digits(s.spec_bytes()),
            r matches Some(b) ==> b.limbs() == strip_zeros(limbs_of_digits(s.spec_bytes())),
    {
        let bytes = s.as_bytes();
        let n = bytes.len();
        let mut k: usize = 0;
        while k < n
            invariant
                n == bytes@.len(),
                bytes@ == s.spec_bytes(),
                k <= n,
                all_digits(bytes@.subrange(0, k as int)),
            decreases n - k,
        {
            if bytes[k] < 48 || bytes[k] > 57 {
                assert(!all_digits(bytes@)) by {
                    assert(bytes@[k as int] < 48 || bytes@[k as int] > 57);
                }
                return None;
            }
            k = k + 1;
            assert(all_digits(bytes@.subrange(0, k as int))) by {
                assert forall|j: int| 0 <= j < k implies 48 <= #[trigger] bytes@.subrange(0, k as int)[j] <= 57 by {
                    if j < k - 1 {
                        assert(bytes@.subrange(0, k as int)[j] == bytes@.subrange(0, k - 1)[j]);
                    }
                }
            }
        }
        assert(bytes@.subrange(0, n as int) =~= bytes@);
        let mut limbs: Vec<u8> = Vec::new();
        let mut end: usize = n;
        assert(limbs_of_digits(bytes@) == limbs@ + limbs_of_digits(bytes@.subrange(0, end as int)));
        while end >= 2
            invariant
                n == bytes@.len(),
                bytes@ == s.spec_bytes(),
                end <= n,
                all_digits(bytes@),
                limbs_of_digits(bytes@) == limbs@ + limbs_of_digits(bytes@.subrange(0, end as int)),
            decreases end,
        {
            let ghost b = bytes@.subrange(0, end as int);
            assert(48 <= bytes@[end - 2] <= 57 && 48 <= bytes@[end - 1] <= 57);
            let v: u8 = (bytes[end - 2] - 48) * 10 + (bytes[end - 1] - 48);
            limbs.push(v);
            assert(b.subrange(0, b.len() - 2) =~= bytes@.subrange(0, end - 2));
            end = end - 2;
            assert(limbs_of_digits(bytes@) =~= limbs@ + limbs_of_digits(bytes@.subrange(0, end as int)));
        }
        if end == 1 {
            assert(48 <= bytes@[0] <= 57);
            limbs.push(bytes[0] - 48);
            assert(limbs_of_digits(bytes@) =~= limbs@);
        } else {
            assert(limbs_of_digits(bytes@) =~= limbs@);
        }
        Some(BigNum::new(limbs))
    }
}

proof fn lemma_incr_top(s: Seq<u8>)
    ensures
        incr_spec(s).len() > 0,
        incr_spec(s).last() != 0 || (s.len() > 0 && s.last() == 0 && s.len() > 1 && incr_spec(s).last() == s.last()),
    decreases s.len(),
{
    if s.len() == 0 {
    } else if s[0] >= 99 {
        lemma_incr_top(s.drop_first());
        let t = seq![0u8] + incr_spec(s.drop_first());
        assert(t.last() == incr_spec(s.drop_first()).last());
        if s.drop_first().len() > 0 {
            assert(s.drop_first().last() == s.last());
        }
    } else {
        let t = seq![(s[0] + 1) as u8] + s.drop_first();
        if s.len() > 1 {
            assert(t.last() == s.last());
        }
    }
}

impl std::str::FromStr for BigNum {
    type Err = ();

    fn from_str(s: &str) -> Result<BigNum, ()> {
        match BigNum::from_decimal(s) {
            Some(b) => Ok(b),
            None => Err(()),
        }
    }
}

} // verus!
