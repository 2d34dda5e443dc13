//! Objects on the console.

use vstd::prelude::*;

use super::arguments::{
    alg_name, arg, argument, argument_is, bytes, bytes_of, code, code_of, join2, join3, name_of_alg,
    number, number_of, said, Answer,
};
use super::registers::MAX_DIGEST;
use crate::tpm::constants::{alg, rc};
use crate::tpm::engine::object::{Object, ObjectSlots, ObjectView, Slot};
use crate::tpm::engine::state::{persistent_wf, TpmState};
use crate::tpm::error::{TpmRc, TpmResult};
use crate::tpm::structures::base::Tpm2bDigest;
use crate::tpm::structures::keys::{
    IdView, PublicId, PublicParms, SensitiveComposite, SensitiveView, TpmtSensitive,
};
use crate::util::text::{
    decimal, decimal_of, encode_hex, hex_number, hex_octets, hex_of, pad, padded, texts, truth,
    truth_of,
};

verus! {

/// What the console says of an object in a list.
pub open spec fn object_line(handle: u32, kind: Seq<char>, o: Object) -> Seq<char> {
    hex_of(handle as nat, 8) + kind + name_of_alg(o.public.object_type) + " "@ + name_of_alg(
        o.public.name_alg,
    ) + (if o.sensitive is None {
        " public"@
    } else {
        " private"@
    })
}

/// What the console says of an object in a list.
fn line_of(handle: u32, kind: &str, o: &Object) -> (r: String)
    ensures
        r@ == object_line(handle, kind@, *o),
{
    let mut out: String = hex_number(handle as u64, 8);
    out.append(kind);
    let t: String = alg_name(o.public.object_type);
    out.append(t.as_str());
    out.append(" ");
    let n: String = alg_name(o.public.name_alg);
    out.append(n.as_str());
    if o.sensitive.is_none() {
        out.append(" public");
    } else {
        out.append(" private");
    }
    out
}

/// What the console says of a slot in a list.
pub open spec fn slot_line(handle: u32, s: Slot) -> Seq<char> {
    match s {
        Slot::Object(o) => object_line(handle, " transient  "@, *o),
        Slot::Sequence(_) => hex_of(handle as nat, 8) + " transient  sequence"@,
    }
}

/// Slots, each with a line end.
pub open spec fn slot_lines(s: Seq<(u32, Slot)>) -> Seq<char>
    decreases s.len(),
{
    if s.len() == 0 {
        Seq::empty()
    } else {
        slot_lines(s.drop_last()) + slot_line(s.last().0, s.last().1) + "\n"@
    }
}

/// Persistent objects, each with a line end, behind other lines.
pub open spec fn persistent_lines(first: Seq<char>, s: Seq<(u32, Object)>) -> Seq<char>
    decreases s.len(),
{
    if s.len() == 0 {
        first
    } else {
        persistent_lines(first, s.drop_last()) + object_line(
            s.last().0,
            " persistent "@,
            s.last().1,
        ) + "\n"@
    }
}

/// `key list`.
pub open spec fn key_list(state: TpmState) -> Seq<char> {
    let all = persistent_lines(
        slot_lines(state.objects.slots.listed()),
        state.persistent.listed(),
    );
    if all.len() == 0 {
        "no object is loaded"@
    } else {
        all.take(all.len() - 1)
    }
}

/// The objects there are.
fn list_keys(state: &TpmState) -> (r: String)
    requires
        state.wf(),
    ensures
        r@ == key_list(*state),
{
    proof {
        reveal(ObjectSlots::wf);
        reveal(persistent_wf);
    }
    let n: usize = state.objects.slots.len();
    let m: usize = state.persistent.len();
    let ghost slots = state.objects.slots.listed();
    let ghost kept = state.persistent.listed();
    let mut out: String = String::new();
    let mut i: usize = 0;
    assert(out@ =~= slot_lines(slots.take(0)));
    while i < n
        invariant
            i <= n,
            n == slots.len(),
            slots == state.objects.slots.listed(),
            state.objects.slots.wf(),
            out@ == slot_lines(slots.take(i as int)),
        decreases n - i,
    {
        let (h, slot) = state.objects.slots.entry(i);
        let line: String = match slot {
            Slot::Object(o) => line_of(h, " transient  ", o),
            Slot::Sequence(_) => {
                let d: String = hex_number(h as u64, 8);
                join2(d.as_str(), " transient  sequence")
            },
        };
        out.append(line.as_str());
        out.append("\n");
        proof {
            let t = slots.take(i + 1);
            assert(t.drop_last() =~= slots.take(i as int));
        }
        i = i + 1;
    }
    assert(slots.take(n as int) =~= slots);
    let ghost first = out@;
    let mut j: usize = 0;
    assert(out@ == persistent_lines(first, kept.take(0)));
    while j < m
        invariant
            j <= m,
            m == kept.len(),
            kept == state.persistent.listed(),
            state.persistent.wf(),
            out@ == persistent_lines(first, kept.take(j as int)),
        decreases m - j,
    {
        let (h, o) = state.persistent.entry(j);
        let line: String = line_of(h, " persistent ", o);
        out.append(line.as_str());
        out.append("\n");
        proof {
            let t = kept.take(j + 1);
            assert(t.drop_last() =~= kept.take(j as int));
        }
        j = j + 1;
    }
    assert(kept.take(m as int) =~= kept);
    let len: usize = out.as_str().unicode_len();
    if len == 0 {
        return String::from_str("no object is loaded");
    }
    let text: &str = out.as_str().substring_char(0, len - 1);
    assert(text@ =~= out@.take(len - 1));
    String::from_str(text)
}

/// The object a handle names on the console.
pub open spec fn object_meant(state: TpmState, handle: u32) -> Result<Object, TpmRc> {
    if state.persistent@.contains_key(handle) {
        Ok(state.persistent@[handle])
    } else if state.objects.has_object(handle) {
        Ok(state.objects.object_at(handle))
    } else if state.objects.slots@.contains_key(handle) {
        Err(TpmRc(rc::TYPE))
    } else {
        Err(TpmRc(rc::HANDLE))
    }
}

/// The object a handle names.
fn find_object(state: &TpmState, handle: u32) -> (r: TpmResult<&Object>)
    requires
        state.wf(),
    ensures
        match object_meant(*state, handle) {
            Ok(o) => r is Ok && *(r->Ok_0) == o,
            Err(e) => r is Err && r->Err_0 == e,
        },
{
    proof {
        reveal(persistent_wf);
    }
    match state.persistent.get(handle) {
        Some(o) => Ok(o),
        None => state.objects.object(handle),
    }
}

/// The first lines of what the console says of an object.
pub open spec fn head_text(o: ObjectView) -> Seq<char> {
    "type           "@ + name_of_alg(o.public.object_type) + "\nnameAlg        "@ + name_of_alg(
        o.public.name_alg,
    ) + "\nattributes     "@ + hex_of(o.public.object_attributes.0 as nat, 8)
        + "\nhierarchy      "@ + hex_of(o.hierarchy as nat, 8) + "\ntpmGenerated   "@ + truth_of(
        o.tpm_generated,
    ) + "\nname           "@ + hex_octets(o.name) + "\nqualifiedName  "@ + hex_octets(
        o.qualified_name,
    ) + "\nauthPolicy     "@ + hex_octets(o.public.auth_policy) + "\n"@
}

/// What the console says of the parameters of an object.
pub open spec fn parameters_text(p: PublicParms) -> Seq<char> {
    match p {
        PublicParms::Rsa { key_bits, exponent, .. } => "keyBits        "@ + decimal_of(
            key_bits as nat,
        ) + "\nexponent       "@ + decimal_of(
            if exponent == 0 {
                65537
            } else {
                exponent as nat
            },
        ) + "\n"@,
        PublicParms::Ecc { curve_id, .. } => "curve          0x"@ + hex_of(curve_id as nat, 4)
            + "\n"@,
        PublicParms::SymCipher { sym } => "symmetric      "@ + name_of_alg(sym.algorithm) + " "@
            + decimal_of(sym.key_bits as nat) + " bits\n"@,
        PublicParms::KeyedHash { .. } => Seq::empty(),
    }
}

/// What the console says of the identifier of an object.
pub open spec fn unique_text(u: IdView) -> Seq<char> {
    match u {
        IdView::Rsa(m) => "modulus        "@ + hex_octets(m) + "\n"@,
        IdView::Ecc(x, y) => "x              "@ + hex_octets(x) + "\ny              "@
            + hex_octets(y) + "\n"@,
        IdView::KeyedHash(d) => "unique         "@ + hex_octets(d) + "\n"@,
        IdView::Sym(d) => "unique         "@ + hex_octets(d) + "\n"@,
        IdView::Derive(_, _) => "unique         derivation values\n"@,
    }
}

/// What the console calls the private value of an object.
pub open spec fn private_label(composite: u16) -> Seq<char> {
    if composite == alg::RSA {
        "prime"@
    } else if composite == alg::ECC {
        "private"@
    } else if composite == alg::KEYEDHASH {
        "bits"@
    } else {
        "key"@
    }
}

/// What the console says of the private values of an object.
pub open spec fn sensitive_text(s: Option<SensitiveView>) -> Seq<char> {
    match s {
        None => "sensitive      absent, the object is public only"@,
        Some(s) => "authValue      "@ + hex_octets(s.auth_value) + "\nseedValue      "@
            + hex_octets(s.seed_value) + "\n"@ + padded(private_label(s.composite), 14) + " "@
            + hex_octets(s.sensitive),
    }
}

/// What the console says of an object.
pub open spec fn object_text(o: ObjectView) -> Seq<char> {
    head_text(o) + parameters_text(o.public.parameters) + unique_text(o.public.unique)
        + sensitive_text(o.sensitive)
}

/// The first lines of what the console says of an object.
fn describe_head(o: &Object) -> (r: String)
    ensures
        r@ == head_text(o@),
{
    let mut out: String = String::from_str("type           ");
    let t: String = alg_name(o.public.object_type);
    out.append(t.as_str());
    out.append("\nnameAlg        ");
    let n: String = alg_name(o.public.name_alg);
    out.append(n.as_str());
    out.append("\nattributes     ");
    let a: String = hex_number(o.public.object_attributes.0 as u64, 8);
    out.append(a.as_str());
    out.append("\nhierarchy      ");
    let h: String = hex_number(o.hierarchy as u64, 8);
    out.append(h.as_str());
    out.append("\ntpmGenerated   ");
    out.append(truth(o.tpm_generated));
    out.append("\nname           ");
    let name: String = encode_hex(o.name.as_slice());
    out.append(name.as_str());
    out.append("\nqualifiedName  ");
    let qn: String = encode_hex(o.qualified_name.as_slice());
    out.append(qn.as_str());
    out.append("\nauthPolicy     ");
    let p: String = encode_hex(o.public.auth_policy.as_slice());
    out.append(p.as_str());
    out.append("\n");
    out
}

/// What the console says of the parameters of an object.
fn describe_parameters(p: &PublicParms) -> (r: String)
    ensures
        r@ == parameters_text(*p),
{
    match p {
        PublicParms::Rsa { key_bits, exponent, .. } => {
            let mut out: String = String::from_str("keyBits        ");
            let b: String = decimal(*key_bits as u64);
            out.append(b.as_str());
            out.append("\nexponent       ");
            let e: String = decimal(
                if *exponent == 0 {
                    65537
                } else {
                    *exponent as u64
                },
            );
            out.append(e.as_str());
            out.append("\n");
            out
        },
        PublicParms::Ecc { curve_id, .. } => {
            let mut out: String = String::from_str("curve          0x");
            let c: String = hex_number(*curve_id as u64, 4);
            out.append(c.as_str());
            out.append("\n");
            out
        },
        PublicParms::SymCipher { sym } => {
            let mut out: String = String::from_str("symmetric      ");
            let a: String = alg_name(sym.algorithm);
            out.append(a.as_str());
            out.append(" ");
            let b: String = decimal(sym.key_bits as u64);
            out.append(b.as_str());
            out.append(" bits\n");
            out
        },
        PublicParms::KeyedHash { .. } => {
            let out: String = String::new();
            assert(out@ =~= Seq::<char>::empty());
            out
        },
    }
}

/// A label, octets and a line end.
fn octets_line(label: &str, d: &[u8]) -> (r: String)
    ensures
        r@ == label@ + hex_octets(d@) + "\n"@,
{
    let h: String = encode_hex(d);
    let mut out: String = join2(label, h.as_str());
    out.append("\n");
    out
}

/// What the console says of the identifier of an object.
fn describe_unique(u: &PublicId) -> (r: String)
    ensures
        r@ == unique_text(u@),
{
    match u {
        PublicId::Rsa(m) => octets_line("modulus        ", m.as_slice()),
        PublicId::Ecc(p) => {
            let mut out: String = String::from_str("x              ");
            let x: String = encode_hex(p.x.as_slice());
            out.append(x.as_str());
            out.append("\ny              ");
            let y: String = encode_hex(p.y.as_slice());
            out.append(y.as_str());
            out.append("\n");
            out
        },
        PublicId::KeyedHash(d) => octets_line("unique         ", d.as_slice()),
        PublicId::Sym(d) => octets_line("unique         ", d.as_slice()),
        PublicId::Derive(_) => String::from_str("unique         derivation values\n"),
    }
}

/// What the console says of the private values of an object.
fn describe_sensitive(s: &TpmtSensitive) -> (r: String)
    ensures
        r@ == sensitive_text(Some(s@)),
{
    let mut out: String = String::from_str("authValue      ");
    let a: String = encode_hex(s.auth_value.as_slice());
    out.append(a.as_str());
    out.append("\nseedValue      ");
    let d: String = encode_hex(s.seed_value.as_slice());
    out.append(d.as_str());
    out.append("\n");
    let (label, value) = match &s.sensitive {
        SensitiveComposite::Rsa(p) => ("prime", p.as_slice()),
        SensitiveComposite::Ecc(d) => ("private", d.as_slice()),
        SensitiveComposite::Bits(b) => ("bits", b.as_slice()),
        SensitiveComposite::Sym(k) => ("key", k.as_slice()),
    };
    let l: String = pad(label, 14);
    out.append(l.as_str());
    out.append(" ");
    let v: String = encode_hex(value);
    out.append(v.as_str());
    out
}

/// What the console says of an object.
pub fn describe_object(o: &Object) -> (r: String)
    ensures
        r@ == object_text(o@),
{
    let mut out: String = describe_head(o);
    let p: String = describe_parameters(&o.public.parameters);
    out.append(p.as_str());
    let u: String = describe_unique(&o.public.unique);
    out.append(u.as_str());
    match &o.sensitive {
        None => {
            out.append("sensitive      absent, the object is public only");
        },
        Some(s) => {
            let t: String = describe_sensitive(s);
            out.append(t.as_str());
        },
    }
    out
}

/// `key show`.
pub open spec fn key_shown(state: TpmState, args: Seq<Seq<char>>) -> Result<Seq<char>, Seq<char>> {
    match number_of(arg(args, 1), "handle"@) {
        Err(e) => Err(e),
        Ok(h) => match object_meant(state, h) {
            Err(e) => Err(code_of(e)),
            Ok(o) => Ok(object_text(o@)),
        },
    }
}

/// An object in full.
fn show_key(state: &TpmState, args: &Vec<&str>) -> (r: Answer)
    requires
        state.wf(),
    ensures
        said(r) == key_shown(*state, texts(args@)),
{
    let handle: u32 = number(argument(args, 1), "handle")?;
    match find_object(state, handle) {
        Ok(o) => Ok(describe_object(o)),
        Err(e) => Err(code(e)),
    }
}

/// The object with another authorization value.
pub open spec fn with_auth(o: ObjectView, value: Seq<u8>) -> ObjectView {
    ObjectView {
        sensitive: match o.sensitive {
            Some(s) => Some(SensitiveView { auth_value: value, ..s }),
            None => None,
        },
        ..o
    }
}

/// Why an object may not be given an authorization value.
pub open spec fn auth_refusal(state: TpmState, h: u32) -> Option<Seq<char>> {
    if state.persistent@.contains_key(h) {
        if state.persistent@[h].sensitive is None {
            Some("the object has no sensitive area"@)
        } else {
            None
        }
    } else if !state.objects.slots@.contains_key(h) {
        Some(code_of(TpmRc(rc::HANDLE)))
    } else {
        match state.objects.slots@[h] {
            Slot::Sequence(_) => Some("the handle names a sequence, not a key"@),
            Slot::Object(o) => if o.sensitive is None {
                Some("the object has no sensitive area"@)
            } else {
                None
            },
        }
    }
}

/// `key auth`.
pub open spec fn key_given_auth(
    after: TpmState,
    before: TpmState,
    args: Seq<Seq<char>>,
    r: Result<Seq<char>, Seq<char>>,
) -> bool {
    match (number_of(arg(args, 1), "handle"@), bytes_of(arg(args, 2), "auth"@, 64)) {
        (Err(e), _) => after == before && r == Err::<Seq<char>, Seq<char>>(e),
        (_, Err(e)) => after == before && r == Err::<Seq<char>, Seq<char>>(e),
        (Ok(h), Ok(value)) => if value.len() > 64 {
            after == before && r == Err::<Seq<char>, Seq<char>>(
                "an authorization value is at most "@ + decimal_of(64) + " octets"@,
            )
        } else {
            match auth_refusal(before, h) {
            Some(e) => after == before && r == Err::<Seq<char>, Seq<char>>(e),
            None => {
                &&& r == Ok::<Seq<char>, Seq<char>>(hex_of(h as nat, 8) + " authorization set"@)
                &&& if before.persistent@.contains_key(h) {
                    &&& after == (TpmState { persistent: after.persistent, ..before })
                    &&& after.persistent@ == before.persistent@.insert(h, after.persistent@[h])
                    &&& after.persistent@[h]@ == with_auth(before.persistent@[h]@, value)
                } else {
                    &&& after == (TpmState { objects: after.objects, ..before })
                    &&& after.objects.slots@ == before.objects.slots@.insert(
                        h,
                        after.objects.slots@[h],
                    )
                    &&& after.objects.has_object(h)
                    &&& after.objects.object_at(h)@ == with_auth(
                        before.objects.object_at(h)@,
                        value,
                    )
                }
            },
            }
        },
    }
}

/// Why an object may not be given an authorization value.
fn refuse_auth(state: &TpmState, h: u32) -> (r: Option<String>)
    requires
        state.wf(),
    ensures
        match auth_refusal(*state, h) {
            Some(e) => r is Some && r->Some_0@ == e,
            None => r is None,
        },
{
    proof {
        reveal(persistent_wf);
    }
    match state.persistent.get(h) {
        Some(o) => {
            if o.sensitive.is_none() {
                return Some(String::from_str("the object has no sensitive area"));
            }
            return None;
        },
        None => {},
    }
    match state.objects.get(h) {
        Err(e) => Some(code(e)),
        Ok(slot) => match slot {
            Slot::Sequence(_) => Some(String::from_str("the handle names a sequence, not a key")),
            Slot::Object(o) => if o.sensitive.is_none() {
                Some(String::from_str("the object has no sensitive area"))
            } else {
                None
            },
        },
    }
}

/// Give an object another authorization value.
fn put_auth(o: &mut Object, value: Tpm2bDigest)
    ensures
        final(o)@ == with_auth(old(o)@, value@),
        old(o).wf() ==> final(o).wf(),
{
    let held: Option<TpmtSensitive> = o.sensitive.take();
    match held {
        Some(s) => {
            o.sensitive = Some(
                TpmtSensitive {
                    sensitive_type: s.sensitive_type,
                    auth_value: value,
                    seed_value: s.seed_value,
                    sensitive: s.sensitive,
                },
            );
        },
        None => {},
    }
}

/// Set the authorization value of an object.
fn auth_key(state: &mut TpmState, args: &Vec<&str>) -> (r: Answer)
    requires
        old(state).wf(),
    ensures
        final(state).wf(),
        key_given_auth(*final(state), *old(state), texts(args@), said(r)),
{
    let handle: u32 = number(argument(args, 1), "handle")?;
    let value: Vec<u8> = bytes(argument(args, 2), "auth", MAX_DIGEST)?;
    if value.len() > MAX_DIGEST {
        let n: String = decimal(MAX_DIGEST as u64);
        return Err(join3("an authorization value is at most ", n.as_str(), " octets"));
    }
    match refuse_auth(state, handle) {
        Some(e) => {
            return Err(e);
        },
        None => {},
    }
    let digest: Tpm2bDigest = match Tpm2bDigest::new(value) {
        Ok(d) => d,
        Err(e) => {
            return Err(code(e));
        },
    };
    proof {
        reveal(persistent_wf);
        reveal(ObjectSlots::wf);
    }
    if state.persistent.contains(handle) {
        if let Some(o) = state.persistent.get_mut(handle) {
            put_auth(o, digest);
        }
    } else {
        if let Ok(slot) = state.objects.get_mut(handle) {
            if let Slot::Object(o) = slot {
                put_auth(&mut **o, digest);
            }
        }
    }
    let h: String = hex_number(handle as u64, 8);
    Ok(join2(h.as_str(), " authorization set"))
}

/// `key flush`.
pub open spec fn key_flushed(
    after: TpmState,
    before: TpmState,
    args: Seq<Seq<char>>,
    r: Result<Seq<char>, Seq<char>>,
) -> bool {
    match number_of(arg(args, 1), "handle"@) {
        Err(e) => after == before && r == Err::<Seq<char>, Seq<char>>(e),
        Ok(h) => if !before.objects.slots@.contains_key(h) {
            after == before && r == Err::<Seq<char>, Seq<char>>(code_of(TpmRc(rc::HANDLE)))
        } else {
            &&& after == (TpmState { objects: after.objects, ..before })
            &&& after.objects.slots@ == before.objects.slots@.remove(h)
            &&& r == Ok::<Seq<char>, Seq<char>>(hex_of(h as nat, 8) + " flushed"@)
        },
    }
}

/// Remove a loaded object.
fn flush_key(state: &mut TpmState, args: &Vec<&str>) -> (r: Answer)
    requires
        old(state).wf(),
    ensures
        final(state).wf(),
        key_flushed(*final(state), *old(state), texts(args@), said(r)),
{
    let handle: u32 = number(argument(args, 1), "handle")?;
    match state.objects.remove(handle) {
        Ok(_) => {
            let h: String = hex_number(handle as u64, 8);
            Ok(join2(h.as_str(), " flushed"))
        },
        Err(e) => Err(code(e)),
    }
}

/// The `key` commands.
pub open spec fn key_acted(
    after: TpmState,
    before: TpmState,
    args: Seq<Seq<char>>,
    r: Result<Seq<char>, Seq<char>>,
) -> bool {
    if arg(args, 0) == Some("list"@) {
        after == before && r == Ok::<Seq<char>, Seq<char>>(key_list(before))
    } else if arg(args, 0) == Some("show"@) {
        after == before && r == key_shown(before, args)
    } else if arg(args, 0) == Some("auth"@) {
        key_given_auth(after, before, args, r)
    } else if arg(args, 0) == Some("flush"@) {
        key_flushed(after, before, args, r)
    } else {
        after == before && r == Err::<Seq<char>, Seq<char>>("try key list, show, auth or flush"@)
    }
}

/// The `key` commands.
pub fn key(state: &mut TpmState, args: &Vec<&str>) -> (r: Answer)
    requires
        old(state).wf(),
    ensures
        final(state).wf(),
        key_acted(*final(state), *old(state), texts(args@), said(r)),
{
    if argument_is(args, 0, "list") {
        return Ok(list_keys(state));
    }
    if argument_is(args, 0, "show") {
        return show_key(state, args);
    }
    if argument_is(args, 0, "auth") {
        return auth_key(state, args);
    }
    if argument_is(args, 0, "flush") {
        return flush_key(state, args);
    }
    Err(String::from_str("try key list, show, auth or flush"))
}

} // verus!
