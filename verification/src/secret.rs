//! Which bits of a bitvector value may depend on secret data, and how each
//! bitvector operation carries that along.
use vstd::prelude::*;

verus! {

/// The secrecy of the bits of a bitvector value.
#[derive(PartialEq, Eq, Debug)]
pub enum Taint {
    /// Every bit is public.
    Public { width: u32 },
    /// Every bit is secret; the value is opaque because only how it is used
    /// matters, not what it is.
    Secret { width: u32 },
    /// Some bits are secret and some public: `secret_mask[i]` tells whether
    /// bit `i` is secret, bit 0 being the least significant. Operations make
    /// a best effort here and may fall back on treating the whole value as
    /// secret.
    PartiallySecret { secret_mask: Vec<bool> },
}

/// A sequence of `n` copies of `b`.
pub open spec fn copies(b: bool, n: nat) -> Seq<bool> {
    Seq::new(n, |i: int| b)
}

impl View for Taint {
    /// The secrecy of each bit, least significant first.
    type V = Seq<bool>;

    open spec fn view(&self) -> Seq<bool> {
        match self {
            Taint::Public { width } => copies(false, *width as nat),
            Taint::Secret { width } => copies(true, *width as nat),
            Taint::PartiallySecret { secret_mask } => secret_mask@,
        }
    }
}

/// `n` copies of `b`, as a vector.
fn repeat_bool(b: bool, n: u32) -> (r: Vec<bool>)
    ensures
        r@ == copies(b, n as nat),
{
    let mut r: Vec<bool> = Vec::new();
    let mut i: u32 = 0;
    while i < n
        invariant
            i <= n,
            r@ == copies(b, i as nat),
        decreases n - i,
    {
        r.push(b);
        i = i + 1;
        assert(r@ =~= copies(b, i as nat));
    }
    r
}

impl Taint {
    /// Is this a well-formed value: every bitvector has at least one bit, and
    /// a partially secret one at most `u32::MAX`.
    pub open spec fn wf(self) -> bool {
        match self {
            Taint::Public { width } => width >= 1,
            Taint::Secret { width } => width >= 1,
            Taint::PartiallySecret { secret_mask } => 1 <= secret_mask@.len() <= u32::MAX,
        }
    }

    /// Is the value (possibly) influenced by secret data? Partially secret
    /// values count as secret.
    pub open spec fn spec_is_secret(self) -> bool {
        !(self is Public)
    }

    /// A public value of the given width.
    pub fn public(width: u32) -> (r: Self)
        ensures
            r == (Taint::Public { width }),
            r@ == copies(false, width as nat),
            r.wf() == (width >= 1),
    {
        Taint::Public { width }
    }

    /// A secret value of the given width.
    pub fn secret(width: u32) -> (r: Self)
        ensures
            r == (Taint::Secret { width }),
            r@ == copies(true, width as nat),
            r.wf() == (width >= 1),
    {
        Taint::Secret { width }
    }

    /// Is the value (possibly) influenced by secret data? This
    /// overapproximates: a partially secret value counts as secret.
    pub fn is_secret(&self) -> (r: bool)
        ensures
            r == self.spec_is_secret(),
    {
        match self {
            Taint::Public { .. } => false,
            Taint::Secret { .. } => true,
            Taint::PartiallySecret { .. } => true,
        }
    }

    /// The width of the value, in bits.
    pub fn get_width(&self) -> (r: u32)
        requires
            self.wf(),
        ensures
            r == self@.len(),
    {
        match self {
            Taint::Public { width } => *width,
            Taint::Secret { width } => *width,
            Taint::PartiallySecret { secret_mask } => secret_mask.len() as u32,
        }
    }

    /// An identical, separately owned value.
    pub fn duplicate(&self) -> (r: Self)
        ensures
            r@ == self@,
            r.spec_is_secret() == self.spec_is_secret(),
            r.wf() == self.wf(),
    {
        match self {
            Taint::Public { width } => Taint::Public { width: *width },
            Taint::Secret { width } => Taint::Secret { width: *width },
            Taint::PartiallySecret { secret_mask } => Taint::PartiallySecret { secret_mask: secret_mask.clone() },
        }
    }
}


impl Clone for Taint {
    fn clone(&self) -> (r: Self)
        ensures
            r@ == self@,
            r.wf() == self.wf(),
    {
        self.duplicate()
    }
}

impl Taint {
    /// The secrecy of the result of an operation with one operand that keeps
    /// the width (`inc`, `dec`, `neg`, `not`): any secret input bit may
    /// influence every output bit, so a partially secret operand yields an
    /// entirely secret result.
    pub fn unop(&self) -> (r: Self)
        requires
            self.wf(),
        ensures
            r.wf(),
            r.spec_is_secret() == self.spec_is_secret(),
            r@ == copies(self.spec_is_secret(), self@.len()),
    {
        match self {
            Taint::Public { width } => Taint::Public { width: *width },
            Taint::Secret { width } => Taint::Secret { width: *width },
            Taint::PartiallySecret { secret_mask } => Taint::Secret { width: secret_mask.len() as u32 },
        }
    }

    /// The secrecy of the 1-bit result of a reduction (`redand`, `redor`,
    /// `redxor`): secret when the operand is even partially secret.
    pub fn unop_to_bool(&self) -> (r: Self)
        ensures
            r.wf(),
            r.spec_is_secret() == self.spec_is_secret(),
            r@ == copies(self.spec_is_secret(), 1),
    {
        match self {
            Taint::Public { .. } => Taint::Public { width: 1 },
            Taint::Secret { .. } => Taint::Secret { width: 1 },
            Taint::PartiallySecret { .. } => Taint::Secret { width: 1 },
        }
    }

    /// The secrecy of the result of an operation with two operands that
    /// keeps the width (arithmetic, bitwise and shift operations): public
    /// when both operands are public; otherwise entirely secret, with the
    /// width of the first operand that is secret.
    pub fn binop(&self, other: &Self) -> (r: Self)
        requires
            self.wf(),
            other.wf(),
        ensures
            r.wf(),
            r.spec_is_secret() == (self.spec_is_secret() || other.spec_is_secret()),
            !self.spec_is_secret() && !other.spec_is_secret() ==> r@ == self@,
            self is Secret ==> r@ == copies(true, self@.len()),
            !(self is Secret) && other is Secret ==> r@ == copies(true, other@.len()),
            self is PartiallySecret && !(other is Secret) ==> r@ == copies(true, self@.len()),
            self is Public && other is PartiallySecret ==> r@ == copies(true, other@.len()),
    {
        match (self, other) {
            (Taint::Public { width }, Taint::Public { .. }) => Taint::Public { width: *width },
            (Taint::Secret { width }, _) => Taint::Secret { width: *width },
            (_, Taint::Secret { width }) => Taint::Secret { width: *width },
            (Taint::PartiallySecret { secret_mask }, _) => Taint::Secret { width: secret_mask.len() as u32 },
            (_, Taint::PartiallySecret { secret_mask }) => Taint::Secret { width: secret_mask.len() as u32 },
        }
    }

    /// The secrecy of the 1-bit result of a comparison or overflow check:
    /// secret when either operand is even partially secret.
    pub fn binop_to_bool(&self, other: &Self) -> (r: Self)
        ensures
            r.wf(),
            r.spec_is_secret() == (self.spec_is_secret() || other.spec_is_secret()),
            r@ == copies(self.spec_is_secret() || other.spec_is_secret(), 1),
    {
        match (self, other) {
            (Taint::Public { .. }, Taint::Public { .. }) => Taint::Public { width: 1 },
            _ => Taint::Secret { width: 1 },
        }
    }

    /// The secrecy after zero-extending by `i` bits: the added zeroes are
    /// public.
    pub fn zext(&self, i: u32) -> (r: Self)
        requires
            self.wf(),
            self@.len() + i <= u32::MAX,
        ensures
            r.wf(),
            r@ == self@ + copies(false, i as nat),
            (r is Public) == (self is Public),
            (r is PartiallySecret) == !(self is Public),
    {
        match self {
            Taint::Public { width } => {
                assert(copies(false, (*width + i) as nat) =~= copies(false, *width as nat) + copies(false, i as nat));
                Taint::Public { width: *width + i }
            },
            Taint::Secret { width } => {
                let mut mask = repeat_bool(true, *width);
                let mut tail = repeat_bool(false, i);
                mask.append(&mut tail);
                Taint::PartiallySecret { secret_mask: mask }
            },
            Taint::PartiallySecret { secret_mask } => {
                let mut mask = secret_mask.clone();
                let mut tail = repeat_bool(false, i);
                mask.append(&mut tail);
                Taint::PartiallySecret { secret_mask: mask }
            },
        }
    }

    /// The secrecy after sign-extending by `i` bits: each added bit copies
    /// the sign bit, so it is secret exactly when the sign bit is.
    pub fn sext(&self, i: u32) -> (r: Self)
        requires
            self.wf(),
            self@.len() + i <= u32::MAX,
        ensures
            r.wf(),
            self@.len() > 0 ==> r@ == self@ + copies(self@.last(), i as nat),
            self@.len() == 0 ==> r@ == self@ + copies(self.spec_is_secret(), i as nat),
            (r is Public) == (self is Public),
            (r is Secret) == (self is Secret),
            (r is PartiallySecret) == (self is PartiallySecret),
    {
        match self {
            Taint::Public { width } => {
                assert(copies(false, (*width + i) as nat) =~= copies(false, *width as nat) + copies(false, i as nat));
                Taint::Public { width: *width + i }
            },
            Taint::Secret { width } => {
                assert(copies(true, (*width + i) as nat) =~= copies(true, *width as nat) + copies(true, i as nat));
                Taint::Secret { width: *width + i }
            },
            Taint::PartiallySecret { secret_mask } => {
                let sign = secret_mask[secret_mask.len() - 1];
                let mut mask = secret_mask.clone();
                let mut tail = repeat_bool(sign, i);
                mask.append(&mut tail);
                Taint::PartiallySecret { secret_mask: mask }
            },
        }
    }
}


/// Does every bit have secrecy `b`?
pub open spec fn all_are(s: Seq<bool>, b: bool) -> bool {
    forall|i: int| 0 <= i < s.len() ==> s[i] == b
}

/// Are all bits of `v` the same as `b`? Computed on the vector.
fn mask_all_are(v: &Vec<bool>, b: bool) -> (r: bool)
    ensures
        r == all_are(v@, b),
{
    let mut i: usize = 0;
    while i < v.len()
        invariant
            i <= v.len(),
            all_are(v@.subrange(0, i as int), b),
        decreases v.len() - i,
    {
        if v[i] != b {
            assert(v@[i as int] != b);
            return false;
        }
        i = i + 1;
        assert(all_are(v@.subrange(0, i as int), b)) by {
            assert forall|j: int| 0 <= j < i implies v@.subrange(0, i as int)[j] == b by {
                if j < i - 1 {
                    assert(v@.subrange(0, i as int)[j] == v@.subrange(0, i - 1)[j]);
                }
            }
        }
    }
    assert(v@.subrange(0, i as int) =~= v@);
    true
}

impl Taint {
    /// The value whose bits have the given secrecy, in its most specific form:
    /// public when no bit is secret, secret when every bit is, partially
    /// secret otherwise.
    pub fn from_mask(mask: Vec<bool>) -> (r: Self)
        requires
            1 <= mask@.len() <= u32::MAX,
        ensures
            r.wf(),
            r@ == mask@,
            (r is Public) == all_are(mask@, false),
            (r is Secret) == all_are(mask@, true),
    {
        let width = mask.len() as u32;
        if mask_all_are(&mask, true) {
            assert(copies(true, width as nat) =~= mask@);
            assert(!all_are(mask@, false)) by {
                assert(mask@[0] == true);
            }
            Taint::Secret { width }
        } else if mask_all_are(&mask, false) {
            assert(copies(false, width as nat) =~= mask@);
            Taint::Public { width }
        } else {
            Taint::PartiallySecret { secret_mask: mask }
        }
    }

    /// The secrecy of the bits `low..=high` (bit 0 being the least
    /// significant). A slice of a partially secret value takes the most
    /// specific form that its bits allow.
    pub fn slice(&self, high: u32, low: u32) -> (r: Self)
        requires
            self.wf(),
            low <= high < self@.len(),
        ensures
            r.wf(),
            r@ == self@.subrange(low as int, high + 1),
            self is Public ==> r is Public,
            self is Secret ==> r is Secret,
            self is PartiallySecret ==> ((r is Public) == all_are(r@, false) && (r is Secret) == all_are(r@, true)),
    {
        match self {
            Taint::Public { .. } => {
                assert(copies(false, (high - low + 1) as nat) =~= self@.subrange(low as int, high + 1));
                Taint::Public { width: high - low + 1 }
            },
            Taint::Secret { .. } => {
                assert(copies(true, (high - low + 1) as nat) =~= self@.subrange(low as int, high + 1));
                Taint::Secret { width: high - low + 1 }
            },
            Taint::PartiallySecret { secret_mask } => {
                let mut mask: Vec<bool> = Vec::new();
                let mut i: usize = low as usize;
                let end: usize = high as usize + 1;
                while i < end
                    invariant
                        low <= i <= end,
                        end == high + 1,
                        high < secret_mask@.len(),
                        mask@ == secret_mask@.subrange(low as int, i as int),
                    decreases high + 1 - i,
                {
                    mask.push(secret_mask[i]);
                    i = i + 1;
                    assert(mask@ =~= secret_mask@.subrange(low as int, i as int));
                }
                Taint::from_mask(mask)
            },
        }
    }
}

/// Appends `v` to `out`.
fn extend_with(out: &mut Vec<bool>, v: &Vec<bool>)
    ensures
        final(out)@ == old(out)@ + v@,
{
    let mut i: usize = 0;
    while i < v.len()
        invariant
            i <= v.len(),
            out@ == old(out)@ + v@.subrange(0, i as int),
        decreases v.len() - i,
    {
        out.push(v[i]);
        i = i + 1;
        assert(out@ =~= old(out)@ + v@.subrange(0, i as int));
    }
    assert(v@.subrange(0, i as int) =~= v@);
}

impl Taint {
    /// The per-bit secrecy as a vector, least significant bit first.
    pub fn to_mask(&self) -> (r: Vec<bool>)
        ensures
            r@ == self@,
    {
        match self {
            Taint::Public { width } => repeat_bool(false, *width),
            Taint::Secret { width } => repeat_bool(true, *width),
            Taint::PartiallySecret { secret_mask } => secret_mask.clone(),
        }
    }

    /// The secrecy of the concatenation of `self` (the high-order bits) and
    /// `other` (the low-order bits). Two public values give a public value,
    /// two secret ones a secret value; any other pair gives a partially
    /// secret value.
    pub fn concat(&self, other: &Self) -> (r: Self)
        requires
            self.wf(),
            other.wf(),
            self@.len() + other@.len() <= u32::MAX,
        ensures
            r.wf(),
            r@ == other@ + self@,
            (r is Public) == (self is Public && other is Public),
            (r is Secret) == (self is Secret && other is Secret),
    {
        match (self, other) {
            (Taint::Public { width }, Taint::Public { width: other_width }) => {
                assert(copies(false, (*width + *other_width) as nat) =~= other@ + self@);
                Taint::Public { width: *width + *other_width }
            },
            (Taint::Secret { width }, Taint::Secret { width: other_width }) => {
                assert(copies(true, (*width + *other_width) as nat) =~= other@ + self@);
                Taint::Secret { width: *width + *other_width }
            },
            _ => {
                let mut mask = other.to_mask();
                let high = self.to_mask();
                extend_with(&mut mask, &high);
                Taint::PartiallySecret { secret_mask: mask }
            },
        }
    }
}

/// `n` copies of `s`, one after another.
pub open spec fn repeat_seq(s: Seq<bool>, n: nat) -> Seq<bool>
    decreases n,
{
    if n == 0 {
        Seq::empty()
    } else {
        repeat_seq(s, (n - 1) as nat) + s
    }
}

proof fn lemma_repeat_len(s: Seq<bool>, n: nat)
    ensures
        repeat_seq(s, n).len() == s.len() * n,
    decreases n,
{
    if n > 0 {
        lemma_repeat_len(s, (n - 1) as nat);
        assert(s.len() * n == s.len() * ((n - 1) as nat) + s.len()) by (nonlinear_arith)
            requires n > 0;
    } else {
        assert(s.len() * n == 0) by (nonlinear_arith) requires n == 0;
    }
}

proof fn lemma_repeat_copies(b: bool, w: nat, n: nat)
    ensures
        repeat_seq(copies(b, w), n) == copies(b, w * n),
    decreases n,
{
    if n > 0 {
        lemma_repeat_copies(b, w, (n - 1) as nat);
        assert(w * n == w * ((n - 1) as nat) + w) by (nonlinear_arith) requires n > 0;
        assert(copies(b, w * n) =~= copies(b, w * ((n - 1) as nat)) + copies(b, w));
    } else {
        assert(w * n == 0) by (nonlinear_arith) requires n == 0;
        assert(copies(b, 0) =~= Seq::<bool>::empty());
    }
}

/// The secrecy of each bit of a choice between `t` and `f` under a public
/// condition: a bit is secret when it is secret on either side.
pub open spec fn either_secret(t: Seq<bool>, f: Seq<bool>) -> Seq<bool> {
    Seq::new(t.len(), |i: int| t[i] || f[i])
}

impl Taint {
    /// The secrecy of `n` copies of the value side by side.
    pub fn repeat(&self, n: u32) -> (r: Self)
        requires
            self.wf(),
            n >= 1,
            self@.len() * n <= u32::MAX,
        ensures
            r.wf(),
            r@ == repeat_seq(self@, n as nat),
            (r is Public) == (self is Public),
            (r is Secret) == (self is Secret),
    {
        proof {
            lemma_repeat_len(self@, n as nat);
            assert(self@.len() <= self@.len() * n) by (nonlinear_arith) requires n >= 1;
        }
        match self {
            Taint::Public { width } => {
                proof { lemma_repeat_copies(false, *width as nat, n as nat); }
                Taint::Public { width: *width * n }
            },
            Taint::Secret { width } => {
                proof { lemma_repeat_copies(true, *width as nat, n as nat); }
                Taint::Secret { width: *width * n }
            },
            Taint::PartiallySecret { secret_mask } => {
                let mut mask: Vec<bool> = Vec::new();
                let mut k: u32 = 0;
                while k < n
                    invariant
                        k <= n,
                        mask@ == repeat_seq(secret_mask@, k as nat),
                    decreases n - k,
                {
                    extend_with(&mut mask, secret_mask);
                    k = k + 1;
                }
                proof {
                    assert(1 <= secret_mask@.len() * n) by (nonlinear_arith)
                        requires n >= 1, secret_mask@.len() >= 1;
                }
                Taint::PartiallySecret { secret_mask: mask }
            },
        }
    }

    /// The secrecy of a choice (`select`) between `truebv` and `falsebv` by the
    /// 1-bit condition `self`. A condition that is even partially secret makes
    /// the whole result secret; under a public condition each bit of the result
    /// is secret when it is secret in either operand.
    pub fn cond_bv(&self, truebv: &Self, falsebv: &Self) -> (r: Self)
        requires
            self.wf(),
            truebv.wf(),
            falsebv.wf(),
            truebv@.len() == falsebv@.len(),
        ensures
            r.wf(),
            self.spec_is_secret() ==> r@ == copies(true, truebv@.len()),
            !self.spec_is_secret() ==> r@ == either_secret(truebv@, falsebv@),
            (r is Public) == (self is Public && truebv is Public && falsebv is Public),
    {
        match (self, truebv, falsebv) {
            (Taint::Public { .. }, Taint::Public { width }, Taint::Public { .. }) => {
                assert(copies(false, *width as nat) =~= either_secret(truebv@, falsebv@));
                Taint::Public { width: *width }
            },
            (Taint::Public { .. }, Taint::Secret { width }, _) => {
                assert(copies(true, *width as nat) =~= either_secret(truebv@, falsebv@));
                Taint::Secret { width: *width }
            },
            (Taint::Public { .. }, _, Taint::Secret { width }) => {
                assert(copies(true, *width as nat) =~= either_secret(truebv@, falsebv@));
                Taint::Secret { width: *width }
            },
            (Taint::Public { .. }, Taint::PartiallySecret { secret_mask }, Taint::Public { .. }) => {
                assert(secret_mask@ =~= either_secret(truebv@, falsebv@));
                Taint::PartiallySecret { secret_mask: secret_mask.clone() }
            },
            (Taint::Public { .. }, Taint::Public { .. }, Taint::PartiallySecret { secret_mask }) => {
                assert(secret_mask@ =~= either_secret(truebv@, falsebv@));
                Taint::PartiallySecret { secret_mask: secret_mask.clone() }
            },
            (
                Taint::Public { .. },
                Taint::PartiallySecret { secret_mask: true_mask },
                Taint::PartiallySecret { secret_mask: false_mask },
            ) => {
                let mut mask: Vec<bool> = Vec::new();
                let mut i: usize = 0;
                while i < true_mask.len()
                    invariant
                        i <= true_mask@.len(),
                        true_mask@.len() == false_mask@.len(),
                        mask@ == either_secret(true_mask@, false_mask@).subrange(0, i as int),
                    decreases true_mask.len() - i,
                {
                    mask.push(true_mask[i] || false_mask[i]);
                    i = i + 1;
                    assert(mask@ =~= either_secret(true_mask@, false_mask@).subrange(0, i as int));
                }
                assert(mask@ =~= either_secret(true_mask@, false_mask@));
                Taint::PartiallySecret { secret_mask: mask }
            },
            _ => {
                let width = truebv.get_width();
                Taint::Secret { width }
            },
        }
    }
}

/// What a bitvector that may hold secret bits is used for, where only a
/// public one may be used.
#[derive(PartialEq, Eq, Structural, Clone, Copy, Debug)]
pub enum SecretUse {
    /// A path constraint: the value influences a control-flow decision.
    ControlFlow,
    /// The address of a memory read.
    ReadAddress,
    /// The address of a memory write.
    WriteAddress,
    /// A request for a concrete solution of the value.
    ConcreteSolution,
}

/// The secrecy of `bits` bits read from memory, from what is known of their
/// shadow bits (one per bit, set for a secret bit): all public when the shadow
/// bits must all be clear; all secret when they can all be set; otherwise
/// secret exactly where the largest possible value of the shadow bits has a 1
/// (`max_mask`, least significant first).
pub open spec fn shadow_read_view(bits: nat, all_public: bool, all_can_be_secret: bool, max_mask: Seq<bool>) -> Seq<bool> {
    if all_public {
        copies(false, bits)
    } else if all_can_be_secret {
        copies(true, bits)
    } else {
        max_mask
    }
}

impl Taint {
    /// Checks a use of the value that is allowed only for public values:
    /// `Err(what)` when any bit of it may be secret, a constant-time
    /// violation.
    pub fn check_public_use(&self, what: SecretUse) -> (r: Result<(), SecretUse>)
        ensures
            r is Ok <==> self is Public,
            r is Err ==> r == Err::<(), SecretUse>(what),
    {
        match self {
            Taint::Public { .. } => Ok(()),
            _ => Err(what),
        }
    }

    /// The shadow bits that a memory write of this value stores: one per bit
    /// of the value, set where the bit is secret.
    pub fn shadow_bits(&self) -> (r: Vec<bool>)
        ensures
            r@ == self@,
    {
        self.to_mask()
    }

    /// The secrecy of `bits` bits read from memory, from what the solver
    /// says of their shadow bits: `all_public` when they must all be clear,
    /// `all_can_be_secret` when they can all be set, and otherwise
    /// `max_mask`, the largest value that they can take, least significant
    /// bit first (looked at only in that last case). A bit that can be secret
    /// counts as secret.
    pub fn from_shadow_read(bits: u32, all_public: bool, all_can_be_secret: bool, max_mask: Vec<bool>) -> (r: Self)
        requires
            bits >= 1,
            !all_public && !all_can_be_secret ==> max_mask@.len() == bits,
        ensures
            r.wf(),
            r@ == shadow_read_view(bits as nat, all_public, all_can_be_secret, max_mask@),
            (r is Public) == all_public,
            (r is Secret) == (!all_public && all_can_be_secret),
    {
        if all_public {
            Taint::Public { width: bits }
        } else if all_can_be_secret {
            Taint::Secret { width: bits }
        } else {
            Taint::PartiallySecret { secret_mask: max_mask }
        }
    }
}

/// A read of the bits that a write stored gives back their secrecy, bit for
/// bit: when the shadow bits are exactly those that the write of `t` stored,
/// they must all be clear just when no bit of `t` is secret, they can all be
/// set just when every bit is, and their largest value is themselves; the
/// value read then has the secrecy of `t`.
pub proof fn law_read_gives_back_written_secrecy(t: Taint)
    requires
        t.wf(),
    ensures
        shadow_read_view(t@.len(), all_are(t@, false), all_are(t@, true), t@) == t@,
{
    if all_are(t@, false) {
        assert(copies(false, t@.len()) =~= t@);
    } else if all_are(t@, true) {
        assert(copies(true, t@.len()) =~= t@);
    }
}

/// Slicing a concatenation at the boundary gives back its two parts: the low
/// bits are the second operand, the high bits the first.
pub proof fn law_slices_of_concat(high: Taint, low: Taint)
    requires
        high.wf(),
        low.wf(),
    ensures
        (low@ + high@).subrange(0, low@.len() as int) == low@,
        (low@ + high@).subrange(low@.len() as int, (low@.len() + high@.len()) as int) == high@,
{
    assert((low@ + high@).subrange(0, low@.len() as int) =~= low@);
    assert((low@ + high@).subrange(low@.len() as int, (low@.len() + high@.len()) as int) =~= high@);
}

/// `is_secret` overapproximates: a value that it calls public has no secret
/// bit, and a value with a secret bit is called secret.
pub proof fn law_is_secret_overapproximates(t: Taint, i: int)
    requires
        t.wf(),
        0 <= i < t@.len(),
        t@[i],
    ensures
        t.spec_is_secret(),
{
}

} // verus!
