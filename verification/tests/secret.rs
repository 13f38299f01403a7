use haybale_pitchfork::secret::{SecretUse, Taint};

#[test]
fn arithmetic() {
    let public = Taint::public(32);
    let public_const = Taint::public(32);
    let secret = Taint::secret(32);

    // unary ops, exemplified by inc()
    assert!(!public.unop().is_secret());
    assert!(secret.unop().is_secret());

    // binary ops, exemplified by add()
    assert!(!public.binop(&public_const).is_secret());
    assert!(public.binop(&secret).is_secret());
    assert!(secret.binop(&public).is_secret());
    assert!(secret.binop(&secret).is_secret());

    // comparison ops, exemplified by ugt()
    assert!(!public.binop_to_bool(&public_const).is_secret());
    assert!(public.binop_to_bool(&secret).is_secret());
    assert!(secret.binop_to_bool(&public).is_secret());
    assert!(secret.binop_to_bool(&secret).is_secret());
}

#[test]
fn slice_and_concat() {
    let public = Taint::public(32);
    let public_const = Taint::public(32);
    let secret = Taint::secret(32);

    assert!(!public.slice(31, 0).is_secret());
    assert!(!public.slice(17, 12).is_secret());
    assert!(secret.slice(31, 0).is_secret());
    assert!(secret.slice(17, 12).is_secret());

    assert!(!public.concat(&public_const).is_secret());
    assert!(secret.concat(&public_const).is_secret());
    assert!(public.concat(&secret).is_secret());
    assert!(secret.concat(&secret).is_secret());

    let secret_low = public.concat(&secret);
    let secret_high = secret.concat(&public);
    assert!(secret_low.is_secret());
    assert!(secret_high.is_secret());
    assert!(!secret_low.slice(63, 32).is_secret());
    assert!(secret_low.slice(31, 0).is_secret());
    assert!(secret_high.slice(63, 32).is_secret());
    assert!(!secret_high.slice(31, 0).is_secret());
    assert!(!secret_high.slice(0, 0).is_secret());
    assert!(secret_low.slice(0, 0).is_secret());
    assert!(secret_low.slice(40, 20).is_secret());
    assert!(secret_high.slice(40, 20).is_secret());

    let secret_middle = public.concat(&secret_high);
    assert!(secret_middle.is_secret());
    assert!(!secret_middle.slice(10, 0).is_secret());
    assert!(!secret_middle.slice(90, 80).is_secret());
    assert!(secret_middle.slice(50, 40).is_secret());

    let secret_ends = secret_high.concat(&secret);
    assert!(secret_ends.is_secret());
    assert!(secret_ends.slice(10, 0).is_secret());
    assert!(secret_ends.slice(90, 80).is_secret());
    assert!(!secret_ends.slice(50, 40).is_secret());

    // concatenate two partially secret values
    let secret_ends = secret_high.concat(&secret_low);
    assert!(secret_ends.is_secret());
    assert!(secret_ends.slice(10, 0).is_secret());
    assert!(secret_ends.slice(120, 110).is_secret());
    assert!(!secret_ends.slice(90, 80).is_secret());
    assert!(!secret_ends.slice(50, 40).is_secret());
}

#[test]
fn extensions() {
    let public = Taint::public(32);
    let secret = Taint::secret(32);

    assert!(!public.zext(16).is_secret());
    assert!(secret.zext(16).is_secret());
    assert!(!public.sext(16).is_secret());
    assert!(secret.sext(16).is_secret());

    // zero-extending a secret, the zeroes are public
    assert!(!secret.zext(16).slice(47, 32).is_secret());
    // sign-extending a secret, the extension bits are secret bc they depend on a secret bit
    assert!(secret.sext(16).slice(47, 32).is_secret());

    let secret_high = secret.concat(&public);
    let secret_low = public.concat(&secret);

    // zero-extending a mixed value, the zeroes are public
    assert!(!secret_low.zext(16).slice(79, 64).is_secret());
    assert!(!secret_high.zext(16).slice(79, 64).is_secret());
    // sign-extending a mixed value, extension bits are secret iff sign bit is secret
    assert!(!secret_low.sext(16).slice(79, 64).is_secret());
    assert!(secret_high.sext(16).slice(79, 64).is_secret());
}

#[test]
fn widths_and_masks() {
    let mixed = Taint::public(8).concat(&Taint::secret(4));
    assert_eq!(mixed.get_width(), 12);
    assert_eq!(
        mixed.to_mask(),
        vec![true, true, true, true, false, false, false, false, false, false, false, false]
    );
    assert_eq!(Taint::secret(3).zext(2).get_width(), 5);
    assert_eq!(Taint::public(3).sext(2), Taint::public(5));
    assert_eq!(Taint::secret(3).sext(2), Taint::secret(5));
    assert_eq!(Taint::secret(3).zext(2).to_mask(), vec![true, true, true, false, false]);
}

#[test]
fn slices_take_the_most_specific_form() {
    let mixed = Taint::public(8).concat(&Taint::secret(8));
    assert_eq!(mixed.slice(7, 0), Taint::secret(8));
    assert_eq!(mixed.slice(15, 8), Taint::public(8));
    assert_eq!(
        mixed.slice(9, 6),
        Taint::PartiallySecret { secret_mask: vec![true, true, false, false] }
    );
}

#[test]
fn unary_and_reductions() {
    let mixed = Taint::public(8).concat(&Taint::secret(8));
    assert_eq!(mixed.unop(), Taint::secret(16));
    assert_eq!(mixed.unop_to_bool(), Taint::secret(1));
    assert_eq!(Taint::public(16).unop_to_bool(), Taint::public(1));
    assert_eq!(Taint::public(16).unop(), Taint::public(16));
}

#[test]
fn binop_widths() {
    let mixed = Taint::public(8).concat(&Taint::secret(8));
    assert_eq!(mixed.binop(&Taint::public(16)), Taint::secret(16));
    assert_eq!(Taint::public(16).binop(&mixed), Taint::secret(16));
    assert_eq!(Taint::public(16).binop(&Taint::public(16)), Taint::public(16));
    assert_eq!(mixed.binop_to_bool(&Taint::public(16)), Taint::secret(1));
    assert_eq!(Taint::public(16).binop_to_bool(&Taint::public(16)), Taint::public(1));
}

#[test]
fn repeat_copies_the_mask() {
    let mixed = Taint::public(1).concat(&Taint::secret(1));
    assert_eq!(mixed.repeat(3).to_mask(), vec![true, false, true, false, true, false]);
    assert_eq!(Taint::secret(4).repeat(3), Taint::secret(12));
    assert_eq!(Taint::public(4).repeat(2), Taint::public(8));
}

#[test]
fn select_under_public_and_secret_conditions() {
    let cond = Taint::public(1);
    let low_secret = Taint::public(2).concat(&Taint::secret(2));
    let high_secret = Taint::secret(2).concat(&Taint::public(2));
    let both = cond.cond_bv(&low_secret, &high_secret);
    assert_eq!(both, Taint::PartiallySecret { secret_mask: vec![true, true, true, true] });
    assert_eq!(cond.cond_bv(&Taint::public(4), &Taint::public(4)), Taint::public(4));
    assert_eq!(cond.cond_bv(&low_secret, &Taint::public(4)).to_mask(), vec![true, true, false, false]);
    assert_eq!(cond.cond_bv(&Taint::public(4), &Taint::secret(4)), Taint::secret(4));
    assert_eq!(Taint::secret(1).cond_bv(&Taint::public(4), &Taint::public(4)), Taint::secret(4));
    let partial_cond = Taint::PartiallySecret { secret_mask: vec![true] };
    assert_eq!(partial_cond.cond_bv(&Taint::public(4), &Taint::public(4)), Taint::secret(4));
}

#[test]
fn public_uses() {
    assert_eq!(Taint::public(8).check_public_use(SecretUse::ControlFlow), Ok(()));
    assert_eq!(Taint::secret(8).check_public_use(SecretUse::ReadAddress), Err(SecretUse::ReadAddress));
    let mixed = Taint::public(8).concat(&Taint::secret(8));
    assert_eq!(mixed.check_public_use(SecretUse::WriteAddress), Err(SecretUse::WriteAddress));
    assert_eq!(mixed.check_public_use(SecretUse::ConcreteSolution), Err(SecretUse::ConcreteSolution));
}

#[test]
fn read_gives_back_written_secrecy() {
    // public value: its shadow bits are all clear
    let public = Taint::public(64);
    let shadow = public.shadow_bits();
    assert!(shadow.iter().all(|b| !*b));
    assert_eq!(Taint::from_shadow_read(64, true, false, Vec::new()), public);

    // secret value: its shadow bits can all be set
    let secret = Taint::secret(64);
    assert!(secret.shadow_bits().iter().all(|b| *b));
    assert_eq!(Taint::from_shadow_read(64, false, true, Vec::new()), secret);

    // mixed value: read back exactly its shadow bits
    let mixed = Taint::public(32).concat(&Taint::secret(32));
    let shadow = mixed.shadow_bits();
    let read = Taint::from_shadow_read(64, false, false, shadow);
    assert!(!read.slice(63, 32).is_secret());
    assert!(read.slice(31, 0).is_secret());
    assert_eq!(read.to_mask(), mixed.to_mask());
}

#[test]
fn from_mask_classifies() {
    assert_eq!(Taint::from_mask(vec![false, false]), Taint::public(2));
    assert_eq!(Taint::from_mask(vec![true, true, true]), Taint::secret(3));
    assert_eq!(
        Taint::from_mask(vec![true, false]),
        Taint::PartiallySecret { secret_mask: vec![true, false] }
    );
}

#[test]
fn extensions_keep_the_kind_of_secrecy() {
    // a partially secret value stays partially secret, and so counts as
    // secret, even where none of its bits is
    let partial = Taint::PartiallySecret { secret_mask: vec![false; 8] };
    let z = partial.zext(8);
    assert!(z.is_secret());
    assert!(matches!(z, Taint::PartiallySecret { ref secret_mask } if secret_mask.len() == 16));
    let s = partial.sext(8);
    assert!(s.is_secret());
    assert!(matches!(s, Taint::PartiallySecret { ref secret_mask } if secret_mask.len() == 16));
    // zero extension of a secret value is partially secret; sign extension
    // keeps it secret
    assert!(matches!(Taint::secret(8).zext(8), Taint::PartiallySecret { .. }));
    assert!(matches!(Taint::secret(8).sext(8), Taint::Secret { width: 16 }));
    assert!(matches!(Taint::public(8).zext(8), Taint::Public { width: 16 }));
}
