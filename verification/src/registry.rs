//! The probe registry: which glibc detector builds apply to a host
//! architecture, in which order they are tried, and the fixed set of
//! musl loader names.
//!
//! The probe binaries themselves are embedded by the program that links
//! this library; the registry only names them and fixes their order.

use vstd::prelude::*;

verus! {

/// The CPU architecture family a build of the embedding program targets.
///
/// Exactly one family is active per build; `Other` stands for every
/// architecture without embedded glibc detectors.
#[derive(Debug, Clone, Copy, Hash, PartialEq, Eq, Structural)]
pub enum HostArch {
    /// 32- or 64-bit x86.
    X86,
    /// 32- or 64-bit Arm.
    Arm,
    /// Little-endian 64-bit PowerPC.
    Powerpc64,
    /// IBM z/Architecture.
    S390x,
    /// Anything else: no glibc detectors are embedded for it.
    Other,
}

/// The architecture a glibc detector binary was built for.
#[derive(Debug, Clone, Copy, Hash, PartialEq, Eq, Structural)]
pub enum GlibcArch {
    /// `x86_64`
    X8664,
    /// `i686`
    I686,
    /// `aarch64`
    Aarch64,
    /// `armv7l`
    Armv7l,
    /// `ppc64le`
    Ppc64le,
    /// `s390x`
    S390x,
}

/// The architecture suffix of a musl loader path
/// `/lib/ld-musl-<arch>.so.1`.
#[derive(Debug, Clone, Copy, Hash, PartialEq, Eq, Structural)]
pub enum MuslArch {
    /// `x86_64`
    X8664,
    /// `aarch64`
    Aarch64,
    /// `i386`
    I386,
    /// `armhf`
    Armhf,
    /// `powerpc64le`
    Powerpc64le,
    /// `s390x`
    S390x,
}

/// The glibc detectors a build for `host` embeds, in the order they are
/// tried: the 64-bit probe before its 32-bit sibling, so that a multilib
/// host answers with its native word size.
pub open spec fn glibc_detector_order(host: HostArch) -> Seq<GlibcArch> {
    match host {
        HostArch::X86 => seq![GlibcArch::X8664, GlibcArch::I686],
        HostArch::Arm => seq![GlibcArch::Aarch64, GlibcArch::Armv7l],
        HostArch::Powerpc64 => seq![GlibcArch::Ppc64le],
        HostArch::S390x => seq![GlibcArch::S390x],
        HostArch::Other => Seq::<GlibcArch>::empty(),
    }
}

/// The fixed architecture suffixes under which a musl loader is sought,
/// in the order they are tried.
pub open spec fn musl_loader_order() -> Seq<MuslArch> {
    seq![
        MuslArch::X8664,
        MuslArch::Aarch64,
        MuslArch::I386,
        MuslArch::Armhf,
        MuslArch::Powerpc64le,
        MuslArch::S390x,
    ]
}

/// Returns the ordered list of glibc detectors applicable to `host`.
///
/// An unsupported architecture yields an empty list, never an error.
pub fn glibc_detectors(host: HostArch) -> (r: Vec<GlibcArch>)
    ensures
        r@ == glibc_detector_order(host),
{
    let mut r: Vec<GlibcArch> = Vec::new();
    match host {
        HostArch::X86 => {
            r.push(GlibcArch::X8664);
            r.push(GlibcArch::I686);
        },
        HostArch::Arm => {
            r.push(GlibcArch::Aarch64);
            r.push(GlibcArch::Armv7l);
        },
        HostArch::Powerpc64 => {
            r.push(GlibcArch::Ppc64le);
        },
        HostArch::S390x => {
            r.push(GlibcArch::S390x);
        },
        HostArch::Other => {},
    }
    proof {
        assert(r@ =~= glibc_detector_order(host));
    }
    r
}

/// Returns the ordered list of architecture suffixes under which a musl
/// loader is sought.
pub fn musl_loader_archs() -> (r: Vec<MuslArch>)
    ensures
        r@ == musl_loader_order(),
{
    let mut r: Vec<MuslArch> = Vec::new();
    r.push(MuslArch::X8664);
    r.push(MuslArch::Aarch64);
    r.push(MuslArch::I386);
    r.push(MuslArch::Armhf);
    r.push(MuslArch::Powerpc64le);
    r.push(MuslArch::S390x);
    proof {
        assert(r@ =~= musl_loader_order());
    }
    r
}

impl GlibcArch {
    /// The tag naming this detector build.
    pub open spec fn tag_spec(self) -> Seq<char> {
        match self {
            GlibcArch::X8664 => "x86_64"@,
            GlibcArch::I686 => "i686"@,
            GlibcArch::Aarch64 => "aarch64"@,
            GlibcArch::Armv7l => "armv7l"@,
            GlibcArch::Ppc64le => "ppc64le"@,
            GlibcArch::S390x => "s390x"@,
        }
    }

    /// The tag naming this detector build, e.g. `x86_64`.
    pub fn tag(&self) -> (r: &'static str)
        ensures
            r@ == self.tag_spec(),
    {
        match self {
            GlibcArch::X8664 => "x86_64",
            GlibcArch::I686 => "i686",
            GlibcArch::Aarch64 => "aarch64",
            GlibcArch::Armv7l => "armv7l",
            GlibcArch::Ppc64le => "ppc64le",
            GlibcArch::S390x => "s390x",
        }
    }
}

impl MuslArch {
    /// The architecture suffix of this loader's conventional path.
    pub open spec fn tag_spec(self) -> Seq<char> {
        match self {
            MuslArch::X8664 => "x86_64"@,
            MuslArch::Aarch64 => "aarch64"@,
            MuslArch::I386 => "i386"@,
            MuslArch::Armhf => "armhf"@,
            MuslArch::Powerpc64le => "powerpc64le"@,
            MuslArch::S390x => "s390x"@,
        }
    }

    /// The architecture suffix of this loader's conventional path,
    /// e.g. the `x86_64` of `/lib/ld-musl-x86_64.so.1`.
    pub fn tag(&self) -> (r: &'static str)
        ensures
            r@ == self.tag_spec(),
    {
        match self {
            MuslArch::X8664 => "x86_64",
            MuslArch::Aarch64 => "aarch64",
            MuslArch::I386 => "i386",
            MuslArch::Armhf => "armhf",
            MuslArch::Powerpc64le => "powerpc64le",
            MuslArch::S390x => "s390x",
        }
    }
}

} // verus!
