//! What the TPM attests to.

use vstd::prelude::*;

use super::base::{Tpm2bData, Tpm2bDigest, Tpm2bMaxNvBuffer, Tpm2bName};
use super::lists::{lemma_selections_len, PcrSelection, TpmlPcrSelection};
use crate::tpm::constants::{rc, st};
use crate::tpm::error::{TpmRc, TpmResult};
use crate::tpm::marshal::{parse_sized, sized, Parsed, Reader, Writer};
use crate::util::bytes::{be16, be32, be64, octets16, octets32, octets64};

verus! {

/// TPMS_CLOCK_INFO.
#[derive(Debug, Clone, Copy, PartialEq, Eq, Structural)]
pub struct ClockInfo {
    pub clock: u64,
    pub reset_count: u32,
    pub restart_count: u32,
    pub safe: bool,
}

/// A TPMI_YES_NO.
pub open spec fn yes_no_octet(v: bool) -> u8 {
    if v {
        1
    } else {
        0
    }
}

impl ClockInfo {
    /// The canonical form.
    pub open spec fn octets(self) -> Seq<u8> {
        octets64(self.clock) + octets32(self.reset_count) + octets32(self.restart_count)
            + seq![yes_no_octet(self.safe)]
    }

    /// Write the canonical form.
    pub fn marshal(&self, w: &mut Writer)
        ensures
            final(w).written() == old(w).written() + self.octets(),
            final(w).good() == old(w).good(),
    {
        w.u64(self.clock);
        w.u32(self.reset_count);
        w.u32(self.restart_count);
        w.u8(
            if self.safe {
                1
            } else {
                0
            },
        );
        assert(w.written() =~= old(w).written() + self.octets());
    }

    /// What the canonical form at `at` holds.
    pub open spec fn parse(d: Seq<u8>, at: int) -> Parsed<ClockInfo> {
        if at + 17 > d.len() {
            Err(TpmRc(rc::INSUFFICIENT))
        } else if d[at + 16] > 1 {
            Err(TpmRc(rc::VALUE))
        } else {
            Ok(
                (
                    ClockInfo {
                        clock: be64(d, at),
                        reset_count: be32(d, at + 8),
                        restart_count: be32(d, at + 12),
                        safe: d[at + 16] == 1,
                    },
                    at + 17,
                ),
            )
        }
    }

    /// Read the canonical form.
    pub fn unmarshal(r: &mut Reader) -> (out: TpmResult<ClockInfo>)
        ensures
            final(r).data() == old(r).data(),
            0 <= old(r).at() <= final(r).at() <= final(r).data().len(),
            match Self::parse(old(r).data(), old(r).at()) {
                Ok((v, next)) => out == Ok::<ClockInfo, TpmRc>(v) && final(r).at() == next,
                Err(e) => out == Err::<ClockInfo, TpmRc>(e),
            },
    {
        let clock: u64 = r.u64()?;
        let reset_count: u32 = r.u32()?;
        let restart_count: u32 = r.u32()?;
        let safe: u8 = r.u8()?;
        if safe > 1 {
            return Err(TpmRc(rc::VALUE));
        }
        Ok(ClockInfo { clock, reset_count, restart_count, safe: safe == 1 })
    }
}

impl Default for ClockInfo {
    fn default() -> (r: ClockInfo)
        ensures
            r == (ClockInfo { clock: 0, reset_count: 0, restart_count: 0, safe: false }),
    {
        ClockInfo { clock: 0, reset_count: 0, restart_count: 0, safe: false }
    }
}

/// TPMS_TIME_INFO.
#[derive(Debug, Clone, Copy, PartialEq, Eq, Structural)]
pub struct TimeInfo {
    pub time: u64,
    pub clock_info: ClockInfo,
}

impl TimeInfo {
    /// The canonical form.
    pub open spec fn octets(self) -> Seq<u8> {
        octets64(self.time) + self.clock_info.octets()
    }

    /// Write the canonical form.
    pub fn marshal(&self, w: &mut Writer)
        ensures
            final(w).written() == old(w).written() + self.octets(),
            final(w).good() == old(w).good(),
    {
        w.u64(self.time);
        self.clock_info.marshal(w);
        assert(w.written() =~= old(w).written() + self.octets());
    }
}

impl Default for TimeInfo {
    fn default() -> (r: TimeInfo)
        ensures
            r.time == 0,
            r.clock_info == (ClockInfo { clock: 0, reset_count: 0, restart_count: 0, safe: false }),
    {
        TimeInfo { time: 0, clock_info: ClockInfo::default() }
    }
}

/// TPMU_ATTEST.
#[derive(Debug)]
pub enum Attested {
    Certify { name: Tpm2bName, qualified_name: Tpm2bName },
    Creation { object_name: Tpm2bName, creation_hash: Tpm2bDigest },
    Quote { pcr_select: TpmlPcrSelection, pcr_digest: Tpm2bDigest },
    Time { time: TimeInfo, firmware_version: u64 },
    CommandAudit {
        audit_counter: u64,
        digest_alg: u16,
        audit_digest: Tpm2bDigest,
        command_digest: Tpm2bDigest,
    },
    SessionAudit { exclusive_session: bool, session_digest: Tpm2bDigest },
    Nv { index_name: Tpm2bName, offset: u16, nv_contents: Tpm2bMaxNvBuffer },
    NvDigest { index_name: Tpm2bName, nv_digest: Tpm2bDigest },
}

/// What is attested to.
pub enum AttestedView {
    Certify { name: Seq<u8>, qualified_name: Seq<u8> },
    Creation { object_name: Seq<u8>, creation_hash: Seq<u8> },
    Quote { pcr_select: Seq<PcrSelection>, pcr_digest: Seq<u8> },
    Time { time: TimeInfo, firmware_version: u64 },
    CommandAudit {
        audit_counter: u64,
        digest_alg: u16,
        audit_digest: Seq<u8>,
        command_digest: Seq<u8>,
    },
    SessionAudit { exclusive_session: bool, session_digest: Seq<u8> },
    Nv { index_name: Seq<u8>, offset: u16, nv_contents: Seq<u8> },
    NvDigest { index_name: Seq<u8>, nv_digest: Seq<u8> },
}

impl View for Attested {
    type V = AttestedView;

    open spec fn view(&self) -> AttestedView {
        match *self {
            Attested::Certify { name, qualified_name } => AttestedView::Certify {
                name: name@,
                qualified_name: qualified_name@,
            },
            Attested::Creation { object_name, creation_hash } => AttestedView::Creation {
                object_name: object_name@,
                creation_hash: creation_hash@,
            },
            Attested::Quote { pcr_select, pcr_digest } => AttestedView::Quote {
                pcr_select: pcr_select.items@,
                pcr_digest: pcr_digest@,
            },
            Attested::Time { time, firmware_version } => AttestedView::Time {
                time,
                firmware_version,
            },
            Attested::CommandAudit { audit_counter, digest_alg, audit_digest, command_digest } =>
                AttestedView::CommandAudit {
                audit_counter,
                digest_alg,
                audit_digest: audit_digest@,
                command_digest: command_digest@,
            },
            Attested::SessionAudit { exclusive_session, session_digest } =>
                AttestedView::SessionAudit {
                exclusive_session,
                session_digest: session_digest@,
            },
            Attested::Nv { index_name, offset, nv_contents } => AttestedView::Nv {
                index_name: index_name@,
                offset,
                nv_contents: nv_contents@,
            },
            Attested::NvDigest { index_name, nv_digest } => AttestedView::NvDigest {
                index_name: index_name@,
                nv_digest: nv_digest@,
            },
        }
    }
}

impl AttestedView {
    /// The tag of the structure.
    pub open spec fn tag(self) -> u16 {
        match self {
            AttestedView::Certify { .. } => st::ATTEST_CERTIFY,
            AttestedView::Creation { .. } => st::ATTEST_CREATION,
            AttestedView::Quote { .. } => st::ATTEST_QUOTE,
            AttestedView::Time { .. } => st::ATTEST_TIME,
            AttestedView::CommandAudit { .. } => st::ATTEST_COMMAND_AUDIT,
            AttestedView::SessionAudit { .. } => st::ATTEST_SESSION_AUDIT,
            AttestedView::Nv { .. } => st::ATTEST_NV,
            AttestedView::NvDigest { .. } => st::ATTEST_NV_DIGEST,
        }
    }

    /// The canonical form.
    pub open spec fn octets(self) -> Seq<u8> {
        match self {
            AttestedView::Certify { name, qualified_name } => sized(name) + sized(qualified_name),
            AttestedView::Creation { object_name, creation_hash } => sized(object_name) + sized(
                creation_hash,
            ),
            AttestedView::Quote { pcr_select, pcr_digest } => TpmlPcrSelection::octets_of(
                pcr_select,
            ) + sized(pcr_digest),
            AttestedView::Time { time, firmware_version } => time.octets() + octets64(
                firmware_version,
            ),
            AttestedView::CommandAudit {
                audit_counter,
                digest_alg,
                audit_digest,
                command_digest,
            } => octets64(audit_counter) + octets16(digest_alg) + sized(audit_digest) + sized(
                command_digest,
            ),
            AttestedView::SessionAudit { exclusive_session, session_digest } => seq![
                yes_no_octet(exclusive_session),
            ] + sized(session_digest),
            AttestedView::Nv { index_name, offset, nv_contents } => sized(index_name) + octets16(
                offset,
            ) + sized(nv_contents),
            AttestedView::NvDigest { index_name, nv_digest } => sized(index_name) + sized(
                nv_digest,
            ),
        }
    }

    /// What the canonical form of a structure with that tag at `at` holds.
    pub open spec fn parse(d: Seq<u8>, at: int, tag: u16) -> Parsed<AttestedView> {
        if tag == st::ATTEST_CERTIFY {
            match parse_pair(d, at, 68, 68) {
                Err(e) => Err(e),
                Ok(((name, qualified_name), n)) => Ok(
                    (AttestedView::Certify { name, qualified_name }, n),
                ),
            }
        } else if tag == st::ATTEST_CREATION {
            match parse_pair(d, at, 68, 64) {
                Err(e) => Err(e),
                Ok(((object_name, creation_hash), n)) => Ok(
                    (AttestedView::Creation { object_name, creation_hash }, n),
                ),
            }
        } else if tag == st::ATTEST_QUOTE {
            match TpmlPcrSelection::parse(d, at) {
                Err(e) => Err(e),
                Ok((pcr_select, n)) => match parse_sized(d, n, 64) {
                    Err(e) => Err(e),
                    Ok((pcr_digest, m)) => Ok((AttestedView::Quote { pcr_select, pcr_digest }, m)),
                },
            }
        } else if tag == st::ATTEST_TIME {
            Self::parse_time(d, at)
        } else if tag == st::ATTEST_COMMAND_AUDIT {
            if at + 10 > d.len() {
                Err(TpmRc(rc::INSUFFICIENT))
            } else {
                match parse_pair(d, at + 10, 64, 64) {
                    Err(e) => Err(e),
                    Ok(((audit_digest, command_digest), n)) => Ok(
                        (
                            AttestedView::CommandAudit {
                                audit_counter: be64(d, at),
                                digest_alg: be16(d, at + 8),
                                audit_digest,
                                command_digest,
                            },
                            n,
                        ),
                    ),
                }
            }
        } else if tag == st::ATTEST_SESSION_AUDIT {
            if at + 1 > d.len() {
                Err(TpmRc(rc::INSUFFICIENT))
            } else if d[at] > 1 {
                Err(TpmRc(rc::VALUE))
            } else {
                match parse_sized(d, at + 1, 64) {
                    Err(e) => Err(e),
                    Ok((session_digest, n)) => Ok(
                        (
                            AttestedView::SessionAudit {
                                exclusive_session: d[at] == 1,
                                session_digest,
                            },
                            n,
                        ),
                    ),
                }
            }
        } else if tag == st::ATTEST_NV {
            Self::parse_nv(d, at)
        } else if tag == st::ATTEST_NV_DIGEST {
            match parse_pair(d, at, 68, 64) {
                Err(e) => Err(e),
                Ok(((index_name, nv_digest), n)) => Ok(
                    (AttestedView::NvDigest { index_name, nv_digest }, n),
                ),
            }
        } else {
            Err(TpmRc(rc::SELECTOR))
        }
    }

    /// The time attested to.
    pub open spec fn parse_time(d: Seq<u8>, at: int) -> Parsed<AttestedView> {
        if at + 8 > d.len() {
            Err(TpmRc(rc::INSUFFICIENT))
        } else {
            match ClockInfo::parse(d, at + 8) {
                Err(e) => Err(e),
                Ok((clock_info, n)) => if n + 8 > d.len() {
                    Err(TpmRc(rc::INSUFFICIENT))
                } else {
                    Ok(
                        (
                            AttestedView::Time {
                                time: TimeInfo { time: be64(d, at), clock_info },
                                firmware_version: be64(d, n),
                            },
                            n + 8,
                        ),
                    )
                },
            }
        }
    }

    /// The contents of an Index attested to.
    pub open spec fn parse_nv(d: Seq<u8>, at: int) -> Parsed<AttestedView> {
        match parse_sized(d, at, 68) {
            Err(e) => Err(e),
            Ok((index_name, n)) => if n + 2 > d.len() {
                Err(TpmRc(rc::INSUFFICIENT))
            } else {
                match parse_sized(d, n + 2, 1024) {
                    Err(e) => Err(e),
                    Ok((nv_contents, m)) => Ok(
                        (AttestedView::Nv { index_name, offset: be16(d, n), nv_contents }, m),
                    ),
                }
            },
        }
    }
}

/// Two sized fields.
pub open spec fn parse_pair(d: Seq<u8>, at: int, a: int, b: int) -> Parsed<(Seq<u8>, Seq<u8>)> {
    match parse_sized(d, at, a) {
        Err(e) => Err(e),
        Ok((x, n)) => match parse_sized(d, n, b) {
            Err(e) => Err(e),
            Ok((y, m)) => Ok(((x, y), m)),
        },
    }
}

impl Attested {
    /// The list of a quote is no longer than a list may be.
    pub open spec fn wf(&self) -> bool {
        self matches Attested::Quote { pcr_select, .. } ==> pcr_select.items@.len() <= 16
    }

    /// The tag of the structure.
    pub fn tag(&self) -> (r: u16)
        ensures
            r == self@.tag(),
    {
        match self {
            Attested::Certify { .. } => st::ATTEST_CERTIFY,
            Attested::Creation { .. } => st::ATTEST_CREATION,
            Attested::Quote { .. } => st::ATTEST_QUOTE,
            Attested::Time { .. } => st::ATTEST_TIME,
            Attested::CommandAudit { .. } => st::ATTEST_COMMAND_AUDIT,
            Attested::SessionAudit { .. } => st::ATTEST_SESSION_AUDIT,
            Attested::Nv { .. } => st::ATTEST_NV,
            Attested::NvDigest { .. } => st::ATTEST_NV_DIGEST,
        }
    }

    /// Write the canonical form.
    pub fn marshal(&self, w: &mut Writer)
        requires
            self.wf(),
        ensures
            final(w).written() == old(w).written() + self@.octets(),
            final(w).good() == old(w).good(),
            self@.octets().len() <= 1200,
    {
        match self {
            Attested::Certify { name, qualified_name } => {
                name.marshal(w);
                qualified_name.marshal(w);
            },
            Attested::Creation { object_name, creation_hash } => {
                object_name.marshal(w);
                creation_hash.marshal(w);
            },
            Attested::Quote { pcr_select, pcr_digest } => {
                pcr_select.marshal(w);
                pcr_digest.marshal(w);
                proof {
                    lemma_selections_len(pcr_select.items@);
                }
            },
            Attested::Time { time, firmware_version } => {
                time.marshal(w);
                w.u64(*firmware_version);
            },
            Attested::CommandAudit { audit_counter, digest_alg, audit_digest, command_digest } => {
                w.u64(*audit_counter);
                w.u16(*digest_alg);
                audit_digest.marshal(w);
                command_digest.marshal(w);
            },
            Attested::SessionAudit { exclusive_session, session_digest } => {
                w.u8(
                    if *exclusive_session {
                        1
                    } else {
                        0
                    },
                );
                session_digest.marshal(w);
            },
            Attested::Nv { index_name, offset, nv_contents } => {
                index_name.marshal(w);
                w.u16(*offset);
                nv_contents.marshal(w);
            },
            Attested::NvDigest { index_name, nv_digest } => {
                index_name.marshal(w);
                nv_digest.marshal(w);
            },
        }
        assert(w.written() =~= old(w).written() + self@.octets());
    }

    /// Read the canonical form of a structure with that tag.
    pub fn unmarshal(r: &mut Reader, tag: u16) -> (out: TpmResult<Attested>)
        ensures
            final(r).data() == old(r).data(),
            0 <= old(r).at() <= final(r).at() <= final(r).data().len(),
            match AttestedView::parse(old(r).data(), old(r).at(), tag) {
                Ok((v, next)) => out is Ok && out->Ok_0@ == v && out->Ok_0.wf() && final(r).at()
                    == next,
                Err(e) => out is Err && out->Err_0 == e,
            },
    {
        proof {
            use_type_invariant(&*r);
        }
        if tag == st::ATTEST_CERTIFY {
            let name: Tpm2bName = Tpm2bName::unmarshal(r)?;
            let qualified_name: Tpm2bName = Tpm2bName::unmarshal(r)?;
            return Ok(Attested::Certify { name, qualified_name });
        }
        if tag == st::ATTEST_CREATION {
            let object_name: Tpm2bName = Tpm2bName::unmarshal(r)?;
            let creation_hash: Tpm2bDigest = Tpm2bDigest::unmarshal(r)?;
            return Ok(Attested::Creation { object_name, creation_hash });
        }
        if tag == st::ATTEST_QUOTE {
            let pcr_select: TpmlPcrSelection = TpmlPcrSelection::unmarshal(r)?;
            let pcr_digest: Tpm2bDigest = Tpm2bDigest::unmarshal(r)?;
            return Ok(Attested::Quote { pcr_select, pcr_digest });
        }
        if tag == st::ATTEST_TIME {
            let time: u64 = r.u64()?;
            let clock_info: ClockInfo = ClockInfo::unmarshal(r)?;
            let firmware_version: u64 = r.u64()?;
            return Ok(Attested::Time { time: TimeInfo { time, clock_info }, firmware_version });
        }
        if tag == st::ATTEST_COMMAND_AUDIT {
            let audit_counter: u64 = r.u64()?;
            let digest_alg: u16 = r.u16()?;
            let audit_digest: Tpm2bDigest = Tpm2bDigest::unmarshal(r)?;
            let command_digest: Tpm2bDigest = Tpm2bDigest::unmarshal(r)?;
            return Ok(
                Attested::CommandAudit { audit_counter, digest_alg, audit_digest, command_digest },
            );
        }
        if tag == st::ATTEST_SESSION_AUDIT {
            let exclusive: u8 = r.u8()?;
            if exclusive > 1 {
                return Err(TpmRc(rc::VALUE));
            }
            let session_digest: Tpm2bDigest = Tpm2bDigest::unmarshal(r)?;
            return Ok(
                Attested::SessionAudit { exclusive_session: exclusive == 1, session_digest },
            );
        }
        if tag == st::ATTEST_NV {
            let index_name: Tpm2bName = Tpm2bName::unmarshal(r)?;
            let offset: u16 = r.u16()?;
            let nv_contents: Tpm2bMaxNvBuffer = Tpm2bMaxNvBuffer::unmarshal(r)?;
            return Ok(Attested::Nv { index_name, offset, nv_contents });
        }
        if tag == st::ATTEST_NV_DIGEST {
            let index_name: Tpm2bName = Tpm2bName::unmarshal(r)?;
            let nv_digest: Tpm2bDigest = Tpm2bDigest::unmarshal(r)?;
            return Ok(Attested::NvDigest { index_name, nv_digest });
        }
        Err(TpmRc(rc::SELECTOR))
    }
}

/// TPMS_ATTEST.
#[derive(Debug)]
pub struct Attest {
    pub magic: u32,
    pub qualified_signer: Tpm2bName,
    pub extra_data: Tpm2bData,
    pub clock_info: ClockInfo,
    pub firmware_version: u64,
    pub attested: Attested,
}

/// What an attestation holds behind its magic.
pub struct AttestView {
    pub qualified_signer: Seq<u8>,
    pub extra_data: Seq<u8>,
    pub clock_info: ClockInfo,
    pub firmware_version: u64,
    pub attested: AttestedView,
}

impl AttestView {
    /// The canonical form. Only the TPM makes a structure that starts with the
    /// magic.
    #[verifier::opaque]
    pub open spec fn octets(self) -> Seq<u8> {
        octets32(st::GENERATED_VALUE) + octets16(self.attested.tag()) + sized(self.qualified_signer)
            + sized(self.extra_data) + self.clock_info.octets() + octets64(self.firmware_version)
            + self.attested.octets()
    }

    /// What the canonical form holds.
    pub open spec fn parse(d: Seq<u8>) -> TpmResult<AttestView> {
        if d.len() < 6 {
            Err(TpmRc(rc::INSUFFICIENT))
        } else if be32(d, 0) != st::GENERATED_VALUE {
            Err(TpmRc(rc::VALUE))
        } else {
            match parse_pair(d, 6, 68, 66) {
                Err(e) => Err(e),
                Ok(((qualified_signer, extra_data), n)) => match ClockInfo::parse(d, n) {
                    Err(e) => Err(e),
                    Ok((clock_info, m)) => if m + 8 > d.len() {
                        Err(TpmRc(rc::INSUFFICIENT))
                    } else {
                        match AttestedView::parse(d, m + 8, be16(d, 4)) {
                            Err(e) => Err(e),
                            Ok((attested, end)) => if end != d.len() {
                                Err(TpmRc(rc::SIZE))
                            } else {
                                Ok(
                                    AttestView {
                                        qualified_signer,
                                        extra_data,
                                        clock_info,
                                        firmware_version: be64(d, m),
                                        attested,
                                    },
                                )
                            },
                        }
                    },
                },
            }
        }
    }
}

impl View for Attest {
    type V = AttestView;

    open spec fn view(&self) -> AttestView {
        AttestView {
            qualified_signer: self.qualified_signer@,
            extra_data: self.extra_data@,
            clock_info: self.clock_info,
            firmware_version: self.firmware_version,
            attested: self.attested@,
        }
    }
}

impl Attest {
    /// An attestation of this TPM.
    pub fn new(
        qualified_signer: Tpm2bName,
        extra_data: Tpm2bData,
        clock_info: ClockInfo,
        firmware_version: u64,
        attested: Attested,
    ) -> (r: Attest)
        ensures
            r.magic == st::GENERATED_VALUE,
            r.qualified_signer == qualified_signer,
            r.extra_data == extra_data,
            r.clock_info == clock_info,
            r.firmware_version == firmware_version,
            r.attested == attested,
    {
        Attest {
            magic: st::GENERATED_VALUE,
            qualified_signer,
            extra_data,
            clock_info,
            firmware_version,
            attested,
        }
    }

    /// The canonical form.
    pub fn to_bytes(&self) -> (r: Vec<u8>)
        requires
            self.magic == st::GENERATED_VALUE,
            self.attested.wf(),
        ensures
            r@ == self@.octets(),
            r@.len() <= 2048,
    {
        let mut w: Writer = Writer::new();
        w.u32(self.magic);
        w.u16(self.attested.tag());
        self.qualified_signer.marshal(&mut w);
        self.extra_data.marshal(&mut w);
        self.clock_info.marshal(&mut w);
        w.u64(self.firmware_version);
        self.attested.marshal(&mut w);
        proof {
            reveal(AttestView::octets);
        }
        assert(w.written() =~= self@.octets());
        w.into_vec()
    }

    /// Read the canonical form, with nothing behind it.
    pub fn from_bytes(d: &[u8]) -> (r: TpmResult<Attest>)
        ensures
            match AttestView::parse(d@) {
                Ok(v) => r is Ok && r->Ok_0@ == v && r->Ok_0.magic == st::GENERATED_VALUE,
                Err(e) => r is Err && r->Err_0 == e,
            },
    {
        if d.len() < 6 {
            return Err(TpmRc(rc::INSUFFICIENT));
        }
        let mut r: Reader = Reader::new(d);
        let magic: u32 = r.u32()?;
        if magic != st::GENERATED_VALUE {
            return Err(TpmRc(rc::VALUE));
        }
        let tag: u16 = r.u16()?;
        let qualified_signer: Tpm2bName = Tpm2bName::unmarshal(&mut r)?;
        let extra_data: Tpm2bData = Tpm2bData::unmarshal(&mut r)?;
        let clock_info: ClockInfo = ClockInfo::unmarshal(&mut r)?;
        let firmware_version: u64 = r.u64()?;
        let attested: Attested = Attested::unmarshal(&mut r, tag)?;
        r.expect_end()?;
        Ok(
            Attest {
                magic,
                qualified_signer,
                extra_data,
                clock_info,
                firmware_version,
                attested,
            },
        )
    }
}

/// TPMS_CREATION_DATA.
#[derive(Debug)]
pub struct CreationData {
    pub pcr_select: TpmlPcrSelection,
    pub pcr_digest: Tpm2bDigest,
    pub locality: u8,
    pub parent_name_alg: u16,
    pub parent_name: Tpm2bName,
    pub parent_qualified_name: Tpm2bName,
    pub outside_info: Tpm2bData,
}

/// What creation data holds.
pub struct CreationView {
    pub pcr_select: Seq<PcrSelection>,
    pub pcr_digest: Seq<u8>,
    pub locality: u8,
    pub parent_name_alg: u16,
    pub parent_name: Seq<u8>,
    pub parent_qualified_name: Seq<u8>,
    pub outside_info: Seq<u8>,
}

impl CreationView {
    /// The canonical form.
    pub open spec fn octets(self) -> Seq<u8> {
        TpmlPcrSelection::octets_of(self.pcr_select) + sized(self.pcr_digest) + seq![self.locality]
            + octets16(self.parent_name_alg) + sized(self.parent_name) + sized(
            self.parent_qualified_name,
        ) + sized(self.outside_info)
    }
}

impl View for CreationData {
    type V = CreationView;

    open spec fn view(&self) -> CreationView {
        CreationView {
            pcr_select: self.pcr_select.items@,
            pcr_digest: self.pcr_digest@,
            locality: self.locality,
            parent_name_alg: self.parent_name_alg,
            parent_name: self.parent_name@,
            parent_qualified_name: self.parent_qualified_name@,
            outside_info: self.outside_info@,
        }
    }
}

impl CreationData {
    /// The canonical form.
    pub fn to_bytes(&self) -> (r: Vec<u8>)
        requires
            self.pcr_select.items@.len() <= 16,
        ensures
            r@ == self@.octets(),
            r@.len() <= 0x800,
    {
        let mut w: Writer = Writer::new();
        self.pcr_select.marshal(&mut w);
        self.pcr_digest.marshal(&mut w);
        w.u8(self.locality);
        w.u16(self.parent_name_alg);
        self.parent_name.marshal(&mut w);
        self.parent_qualified_name.marshal(&mut w);
        self.outside_info.marshal(&mut w);
        assert(w.written() =~= self@.octets());
        proof {
            lemma_selections_len(self.pcr_select.items@);
        }
        w.into_vec()
    }
}

} // verus!
