//! What a public area and the sensitive area that goes with it have to be.

use vstd::prelude::*;

use crate::tpm::constants::{alg, rc};
use crate::tpm::crypto::bn::{number_of, BigNum};
use crate::tpm::crypto::ecc::{base_multiplied, curve_of, Curve, Point};
use crate::tpm::crypto::hash::{digest, digest_size, hash_of, size_of, supported};
use crate::tpm::crypto::rsa::{exponent_of, private_of, RsaPrivate};
use crate::tpm::error::{TpmRc, TpmResult};
use crate::tpm::structures::attributes::ObjectAttributes;
use crate::tpm::structures::keys::{
    known_curve, IdView, PublicId, PublicParms, PublicView, SensitiveComposite, SensitiveView,
    TpmtPublic, TpmtSensitive,
};
use crate::tpm::structures::schemes::{Scheme, SymDef};
use crate::util::bytes::{constant_time_eq, to_vec};

verus! {

/// True for a restricted decryption key, which children hang under.
pub open spec fn is_parent(p: PublicView) -> bool {
    p.object_attributes.has(ObjectAttributes::RESTRICTED) && p.object_attributes.has(
        ObjectAttributes::DECRYPT,
    )
}

/// True for a restricted signing key.
pub open spec fn signs_restricted(p: PublicView) -> bool {
    p.object_attributes.has(ObjectAttributes::RESTRICTED) && p.object_attributes.has(
        ObjectAttributes::SIGN_ENCRYPT,
    )
}

/// Whether the attributes go together.
pub open spec fn attributes_check(p: PublicView) -> TpmResult<()> {
    let a = p.object_attributes;
    if a.has(ObjectAttributes::RESTRICTED) && a.has(ObjectAttributes::SIGN_ENCRYPT) == a.has(
        ObjectAttributes::DECRYPT,
    ) {
        Err(TpmRc(rc::ATTRIBUTES))
    } else if a.has(ObjectAttributes::FIXED_TPM) && !a.has(ObjectAttributes::FIXED_PARENT) {
        Err(TpmRc(rc::ATTRIBUTES))
    } else {
        Ok(())
    }
}

/// Whether the parameters of an asymmetric key go with its attributes: a parent
/// has a cipher for its children and no scheme of its own, any other key has no
/// cipher, and a restricted signing key has a scheme.
pub open spec fn asymmetric_check(p: PublicView, symmetric: SymDef, scheme: Scheme) -> TpmResult<
    (),
> {
    if is_parent(p) {
        if symmetric.algorithm == alg::NULL {
            Err(TpmRc(rc::SYMMETRIC))
        } else if scheme.scheme != alg::NULL {
            Err(TpmRc(rc::SCHEME))
        } else {
            Ok(())
        }
    } else if symmetric.algorithm != alg::NULL {
        Err(TpmRc(rc::SYMMETRIC))
    } else if signs_restricted(p) && scheme.scheme == alg::NULL {
        Err(TpmRc(rc::SCHEME))
    } else {
        Ok(())
    }
}

/// Whether the parameters go with the type and the attributes.
pub open spec fn parameters_check(p: PublicView) -> TpmResult<()> {
    match p.parameters {
        PublicParms::Rsa { symmetric, scheme, .. } => if p.object_type != alg::RSA {
            Err(TpmRc(rc::TYPE))
        } else {
            asymmetric_check(p, symmetric, scheme)
        },
        PublicParms::Ecc { symmetric, scheme, .. } => if p.object_type != alg::ECC {
            Err(TpmRc(rc::TYPE))
        } else {
            asymmetric_check(p, symmetric, scheme)
        },
        PublicParms::SymCipher { sym } => if p.object_type != alg::SYMCIPHER {
            Err(TpmRc(rc::TYPE))
        } else if sym.algorithm == alg::NULL {
            Err(TpmRc(rc::SYMMETRIC))
        } else {
            Ok(())
        },
        PublicParms::KeyedHash { scheme } => if p.object_type != alg::KEYEDHASH {
            Err(TpmRc(rc::TYPE))
        } else if is_parent(p) && scheme.scheme != alg::XOR {
            Err(TpmRc(rc::SCHEME))
        } else if signs_restricted(p) && scheme.scheme == alg::NULL {
            Err(TpmRc(rc::SCHEME))
        } else {
            Ok(())
        },
    }
}

/// Whether a public area may be loaded.
#[verifier::opaque]
pub open spec fn loaded_check(p: PublicView) -> TpmResult<()> {
    match attributes_check(p) {
        Err(e) => Err(e),
        Ok(_) => if p.auth_policy.len() != 0 && p.auth_policy.len() != size_of(p.name_alg) {
            Err(TpmRc(rc::SIZE))
        } else {
            parameters_check(p)
        },
    }
}

/// Check that a public area may be loaded.
pub fn validate_loaded_public(public: &TpmtPublic) -> (r: TpmResult<()>)
    ensures
        r == loaded_check(public@),
{
    proof {
        reveal(loaded_check);
    }
    let a: ObjectAttributes = public.object_attributes;
    let restricted: bool = a.has(ObjectAttributes::RESTRICTED);
    let sign: bool = a.has(ObjectAttributes::SIGN_ENCRYPT);
    let decrypt: bool = a.has(ObjectAttributes::DECRYPT);
    if restricted && sign == decrypt {
        return Err(TpmRc(rc::ATTRIBUTES));
    }
    if a.has(ObjectAttributes::FIXED_TPM) && !a.has(ObjectAttributes::FIXED_PARENT) {
        return Err(TpmRc(rc::ATTRIBUTES));
    }
    let size: usize = match digest_size(public.name_alg) {
        Ok(n) => n,
        Err(_) => 0,
    };
    if !public.auth_policy.is_empty() && public.auth_policy.len() != size {
        return Err(TpmRc(rc::SIZE));
    }
    let (symmetric, scheme, expected) = match public.parameters {
        PublicParms::Rsa { symmetric, scheme, .. } => (symmetric, scheme, alg::RSA),
        PublicParms::Ecc { symmetric, scheme, .. } => (symmetric, scheme, alg::ECC),
        PublicParms::SymCipher { sym } => {
            if public.object_type != alg::SYMCIPHER {
                return Err(TpmRc(rc::TYPE));
            }
            if sym.is_null() {
                return Err(TpmRc(rc::SYMMETRIC));
            }
            return Ok(());
        },
        PublicParms::KeyedHash { scheme } => {
            if public.object_type != alg::KEYEDHASH {
                return Err(TpmRc(rc::TYPE));
            }
            if restricted && decrypt && scheme.scheme != alg::XOR {
                return Err(TpmRc(rc::SCHEME));
            }
            if restricted && sign && scheme.is_null() {
                return Err(TpmRc(rc::SCHEME));
            }
            return Ok(());
        },
    };
    if public.object_type != expected {
        return Err(TpmRc(rc::TYPE));
    }
    if restricted && decrypt {
        if symmetric.is_null() {
            return Err(TpmRc(rc::SYMMETRIC));
        }
        if !scheme.is_null() {
            return Err(TpmRc(rc::SCHEME));
        }
        return Ok(());
    }
    if !symmetric.is_null() {
        return Err(TpmRc(rc::SYMMETRIC));
    }
    if restricted && sign && scheme.is_null() {
        return Err(TpmRc(rc::SCHEME));
    }
    Ok(())
}

/// Whether an object can do something: only a keyed hash, which is then sealed
/// data, may neither sign nor decrypt.
pub open spec fn action_check(p: PublicView) -> TpmResult<()> {
    if p.object_type != alg::KEYEDHASH && !p.object_attributes.has(ObjectAttributes::SIGN_ENCRYPT)
        && !p.object_attributes.has(ObjectAttributes::DECRYPT) {
        Err(TpmRc(rc::ATTRIBUTES))
    } else {
        Ok(())
    }
}

/// Check that an object can do something.
pub fn validate_action_attributes(public: &TpmtPublic) -> (r: TpmResult<()>)
    ensures
        r == action_check(public@),
{
    if public.object_type != alg::KEYEDHASH && !public.object_attributes.has(
        ObjectAttributes::SIGN_ENCRYPT,
    ) && !public.object_attributes.has(ObjectAttributes::DECRYPT) {
        return Err(TpmRc(rc::ATTRIBUTES));
    }
    Ok(())
}

/// Whether an object may be created from a template, and loaded again.
pub open spec fn creation_check(p: PublicView) -> TpmResult<()> {
    match loaded_check(p) {
        Err(e) => Err(e),
        Ok(_) => action_check(p),
    }
}

/// Check that an object may be created from a template.
pub fn validate_creation_template(public: &TpmtPublic) -> (r: TpmResult<()>)
    ensures
        r == creation_check(public@),
{
    validate_loaded_public(public)?;
    validate_action_attributes(public)
}

/// Whether a sensitive area goes with a public area.
#[verifier::opaque]
pub open spec fn binding_check(p: PublicView, s: SensitiveView) -> TpmResult<()> {
    if s.sensitive_type != p.object_type || s.composite != p.object_type {
        Err(TpmRc(rc::TYPE))
    } else {
        match (p.unique, p.parameters) {
            (IdView::Rsa(modulus), PublicParms::Rsa { exponent, .. }) => if private_of(
                number_of(modulus),
                exponent_of(exponent),
                number_of(s.sensitive),
            ) != 0 {
                Ok(())
            } else {
                Err(TpmRc(rc::BINDING))
            },
            (IdView::Ecc(x, y), PublicParms::Ecc { curve_id, .. }) => if !known_curve(curve_id) {
                Err(TpmRc(rc::CURVE))
            } else if base_multiplied(curve_of(curve_id), number_of(s.sensitive)) == Some(
                (number_of(x), number_of(y)),
            ) {
                Ok(())
            } else {
                Err(TpmRc(rc::BINDING))
            },
            (IdView::KeyedHash(d), _) => if !supported(p.name_alg) || d == hash_of(
                p.name_alg,
                s.seed_value + s.sensitive,
            ) {
                Ok(())
            } else {
                Err(TpmRc(rc::BINDING))
            },
            (IdView::Sym(d), _) => if !supported(p.name_alg) || d == hash_of(
                p.name_alg,
                s.seed_value + s.sensitive,
            ) {
                Ok(())
            } else {
                Err(TpmRc(rc::BINDING))
            },
            _ => Err(TpmRc(rc::TYPE)),
        }
    }
}

/// The type of object a composite belongs to.
fn type_of(s: &SensitiveComposite) -> (r: u16)
    ensures
        r == crate::tpm::structures::keys::composite_type(*s),
{
    match s {
        SensitiveComposite::Rsa(_) => alg::RSA,
        SensitiveComposite::Ecc(_) => alg::ECC,
        SensitiveComposite::Bits(_) => alg::KEYEDHASH,
        SensitiveComposite::Sym(_) => alg::SYMCIPHER,
    }
}

/// Whether a digest is the one over a seed and a secret.
fn check_digest(name_alg: u16, d: &[u8], s: &TpmtSensitive) -> (r: TpmResult<()>)
    ensures
        r == (if !supported(name_alg) || d@ == hash_of(name_alg, s.seed_value@ + s.sensitive@) {
            Ok(())
        } else {
            Err::<(), TpmRc>(TpmRc(rc::BINDING))
        }),
{
    let mut data: Vec<u8> = to_vec(s.seed_value.as_slice());
    data.extend_from_slice(s.sensitive.as_slice());
    assert(data@ =~= s.seed_value@ + s.sensitive@);
    match digest(name_alg, data.as_slice()) {
        Err(_) => Ok(()),
        Ok(expected) => {
            if !constant_time_eq(d, expected.as_slice()) {
                return Err(TpmRc(rc::BINDING));
            }
            Ok(())
        },
    }
}

/// Check that a sensitive area goes with a public area.
pub fn check_binding(public: &TpmtPublic, sensitive: &TpmtSensitive) -> (r: TpmResult<()>)
    ensures
        r == binding_check(public@, sensitive@),
{
    proof {
        reveal(binding_check);
    }
    if sensitive.sensitive_type != public.object_type || type_of(&sensitive.sensitive)
        != public.object_type {
        return Err(TpmRc(rc::TYPE));
    }
    match (&public.unique, &public.parameters) {
        (PublicId::Rsa(modulus), PublicParms::Rsa { exponent, .. }) => {
            match RsaPrivate::from_prime(
                modulus.as_slice(),
                *exponent,
                sensitive.sensitive.as_slice(),
            ) {
                Ok(_) => Ok(()),
                Err(_) => Err(TpmRc(rc::BINDING)),
            }
        },
        (PublicId::Ecc(point), PublicParms::Ecc { curve_id, .. }) => {
            let curve: Curve = Curve::new(*curve_id)?;
            let q: Point = curve.multiply_base(
                &BigNum::from_bytes(sensitive.sensitive.as_slice()),
            );
            if q.is_infinite() || !q.x().same(&BigNum::from_bytes(point.x.as_slice()))
                || !q.y().same(&BigNum::from_bytes(point.y.as_slice())) {
                return Err(TpmRc(rc::BINDING));
            }
            Ok(())
        },
        (PublicId::KeyedHash(d), _) => check_digest(public.name_alg, d.as_slice(), sensitive),
        (PublicId::Sym(d), _) => check_digest(public.name_alg, d.as_slice(), sensitive),
        _ => Err(TpmRc(rc::TYPE)),
    }
}

} // verus!
