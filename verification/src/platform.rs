//! The platforms that the plugin knows, told apart by their product name.
use vstd::prelude::*;

use crate::text::{self, contains, trim};

verus! {

/// Where the kernel shows the product name of the machine.
pub const DMI_PRODUCT_NAME: &'static str = "/sys/class/dmi/id/product_name";

/// A platform.
#[derive(Debug, Clone, PartialEq)]
pub enum Platform {
    HgxH100,
    HgxB200,
    HgxB300,
    Gb200Nvl72,
    Gb300,
    VeraRubin,
    Unknown(String),
}

/// What a `Platform` says.
pub enum PlatformView {
    HgxH100,
    HgxB200,
    HgxB300,
    Gb200Nvl72,
    Gb300,
    VeraRubin,
    Unknown(Seq<char>),
}

impl View for Platform {
    type V = PlatformView;

    open spec fn view(&self) -> PlatformView {
        match *self {
            Platform::HgxH100 => PlatformView::HgxH100,
            Platform::HgxB200 => PlatformView::HgxB200,
            Platform::HgxB300 => PlatformView::HgxB300,
            Platform::Gb200Nvl72 => PlatformView::Gb200Nvl72,
            Platform::Gb300 => PlatformView::Gb300,
            Platform::VeraRubin => PlatformView::VeraRubin,
            Platform::Unknown(s) => PlatformView::Unknown(s@),
        }
    }
}

impl PlatformView {
    /// The platform with the product name `s`: the first in this order whose mark stands in it.
    pub open spec fn of_product_name(s: Seq<char>) -> PlatformView {
        if text::occurs(s, "HGX H100"@) {
            PlatformView::HgxH100
        } else if text::occurs(s, "HGX B200"@) {
            PlatformView::HgxB200
        } else if text::occurs(s, "HGX B300"@) {
            PlatformView::HgxB300
        } else if text::occurs(s, "GB200 NVL72"@) || text::occurs(s, "GB200NVL72"@) {
            PlatformView::Gb200Nvl72
        } else if text::occurs(s, "GB300"@) {
            PlatformView::Gb300
        } else if text::occurs(s, "Vera Rubin"@) || text::occurs(s, "VR200"@) {
            PlatformView::VeraRubin
        } else {
            PlatformView::Unknown(s)
        }
    }

    /// The platform, given what was read of the product name, if that could be read.
    pub open spec fn detected(raw: Option<Seq<char>>) -> PlatformView {
        PlatformView::of_product_name(
            match raw {
                Some(s) => text::trimmed(s),
                None => Seq::empty(),
            },
        )
    }

    /// The number of NVLink partitions, where the platform is known.
    pub open spec fn partitions(self) -> Option<u32> {
        match self {
            PlatformView::Unknown(_) => None,
            _ => Some(1),
        }
    }

    /// The name of a platform: an unknown one goes by its product name.
    pub open spec fn name(self) -> Seq<char> {
        match self {
            PlatformView::HgxH100 => "HGX H100"@,
            PlatformView::HgxB200 => "HGX B200"@,
            PlatformView::HgxB300 => "HGX B300"@,
            PlatformView::Gb200Nvl72 => "GB200 NVL72"@,
            PlatformView::Gb300 => "GB300"@,
            PlatformView::VeraRubin => "Vera Rubin"@,
            PlatformView::Unknown(s) => s,
        }
    }
}

impl Platform {
    /// The platform, given what was read from the file `DMI_PRODUCT_NAME`, if that could be read.
    pub fn detect(raw: Option<&str>) -> (r: Self)
        ensures
            r@ == PlatformView::of_product_name(
                match raw {
                    Some(s) => text::trimmed(s@),
                    None => Seq::empty(),
                },
            ),
            r@ == PlatformView::detected(
                match raw {
                    Some(s) => Some(s@),
                    None => None,
                },
            ),
    {
        match raw {
            Some(s) => Platform::from_product_name(trim(s)),
            None => {
                proof {
                    reveal_strlit("");
                    assert(""@ =~= Seq::empty());
                }
                Platform::from_product_name("")
            },
        }
    }

    /// The platform with the product name `s`.
    pub fn from_product_name(s: &str) -> (r: Self)
        ensures
            r@ == PlatformView::of_product_name(s@),
    {
        if contains(s, "HGX H100") {
            Platform::HgxH100
        } else if contains(s, "HGX B200") {
            Platform::HgxB200
        } else if contains(s, "HGX B300") {
            Platform::HgxB300
        } else if contains(s, "GB200 NVL72") || contains(s, "GB200NVL72") {
            Platform::Gb200Nvl72
        } else if contains(s, "GB300") {
            Platform::Gb300
        } else if contains(s, "Vera Rubin") || contains(s, "VR200") {
            Platform::VeraRubin
        } else {
            Platform::Unknown(s.to_owned())
        }
    }

    /// The name of the platform.
    pub fn name(&self) -> (r: &str)
        ensures
            r@ == self@.name(),
    {
        match self {
            Platform::HgxH100 => "HGX H100",
            Platform::HgxB200 => "HGX B200",
            Platform::HgxB300 => "HGX B300",
            Platform::Gb200Nvl72 => "GB200 NVL72",
            Platform::Gb300 => "GB300",
            Platform::VeraRubin => "Vera Rubin",
            Platform::Unknown(s) => s.as_str(),
        }
    }

    /// Expected number of NVLink partitions on this platform: one on each that is known.
    pub fn nvlink_partitions(&self) -> (r: Option<u32>)
        ensures
            r == if self@ is Unknown {
                None::<u32>
            } else {
                Some(1u32)
            },
            r == self@.partitions(),
    {
        match self {
            Platform::HgxH100 => Some(1),
            Platform::HgxB200 => Some(1),
            Platform::HgxB300 => Some(1),
            Platform::Gb200Nvl72 => Some(1),
            Platform::Gb300 => Some(1),
            Platform::VeraRubin => Some(1),
            Platform::Unknown(_) => None,
        }
    }
}

/// A text does not hold another that has a character that it does not have.
proof fn lemma_lacks(s: Seq<char>, pat: Seq<char>, k: int)
    requires
        0 <= k < pat.len(),
        !s.contains(pat[k]),
    ensures
        !text::occurs(s, pat),
{
    if text::occurs(s, pat) {
        let i = choose|i: int| text::occurs_at(s, pat, i);
        assert(s.subrange(i, i + pat.len())[k] == pat[k]);
        assert(s[i + k] == pat[k]);
    }
}

/// Every text holds itself.
proof fn lemma_holds_itself(s: Seq<char>)
    ensures
        text::occurs(s, s),
{
    assert(s.subrange(0, s.len() as int) =~= s);
    assert(text::occurs_at(s, s, 0));
}

/// A text without an `H` has none of the HGX marks.
proof fn lemma_no_h(s: Seq<char>)
    requires
        !s.contains('H'),
    ensures
        !text::occurs(s, "HGX H100"@),
        !text::occurs(s, "HGX B200"@),
        !text::occurs(s, "HGX B300"@),
{
    assert(!text::occurs(s, "HGX H100"@)) by {
        reveal_strlit("HGX H100");
        lemma_lacks(s, "HGX H100"@, 0);
    }
    assert(!text::occurs(s, "HGX B200"@)) by {
        reveal_strlit("HGX B200");
        lemma_lacks(s, "HGX B200"@, 0);
    }
    assert(!text::occurs(s, "HGX B300"@)) by {
        reveal_strlit("HGX B300");
        lemma_lacks(s, "HGX B300"@, 0);
    }
}

/// A text without a `1` does not have the mark of the HGX H100.
proof fn lemma_no_1(s: Seq<char>)
    requires
        !s.contains('1'),
    ensures
        !text::occurs(s, "HGX H100"@),
{
    assert(!text::occurs(s, "HGX H100"@)) by {
        reveal_strlit("HGX H100");
        lemma_lacks(s, "HGX H100"@, 5);
    }
}

/// A text without a `2` has no mark of a B200 or GB200.
proof fn lemma_no_2(s: Seq<char>)
    requires
        !s.contains('2'),
    ensures
        !text::occurs(s, "HGX B200"@),
        !text::occurs(s, "GB200 NVL72"@),
        !text::occurs(s, "GB200NVL72"@),
{
    assert(!text::occurs(s, "HGX B200"@)) by {
        reveal_strlit("HGX B200");
        lemma_lacks(s, "HGX B200"@, 5);
    }
    assert(!text::occurs(s, "GB200 NVL72"@)) by {
        reveal_strlit("GB200 NVL72");
        lemma_lacks(s, "GB200 NVL72"@, 2);
    }
    assert(!text::occurs(s, "GB200NVL72"@)) by {
        reveal_strlit("GB200NVL72");
        lemma_lacks(s, "GB200NVL72"@, 2);
    }
}

/// A text without a `3` does not have the mark of the GB300.
proof fn lemma_no_3(s: Seq<char>)
    requires
        !s.contains('3'),
    ensures
        !text::occurs(s, "GB300"@),
{
    assert(!text::occurs(s, "GB300"@)) by {
        reveal_strlit("GB300");
        lemma_lacks(s, "GB300"@, 2);
    }
}

#[verifier::spinoff_prover]
proof fn lemma_name_h100()
    ensures
        PlatformView::of_product_name("HGX H100"@) == PlatformView::HgxH100,
{
    lemma_holds_itself("HGX H100"@);
}

#[verifier::spinoff_prover]
proof fn lemma_chars_b200()
    ensures
        !"HGX B200"@.contains('1'),
{
    reveal_strlit("HGX B200");
}

#[verifier::spinoff_prover]
proof fn lemma_name_b200()
    ensures
        PlatformView::of_product_name("HGX B200"@) == PlatformView::HgxB200,
{
    lemma_chars_b200();
    lemma_no_1("HGX B200"@);
    lemma_holds_itself("HGX B200"@);
}

#[verifier::spinoff_prover]
proof fn lemma_chars_b300()
    ensures
        !"HGX B300"@.contains('1'),
        !"HGX B300"@.contains('2'),
{
    reveal_strlit("HGX B300");
}

#[verifier::spinoff_prover]
proof fn lemma_name_b300()
    ensures
        PlatformView::of_product_name("HGX B300"@) == PlatformView::HgxB300,
{
    lemma_chars_b300();
    lemma_no_1("HGX B300"@);
    lemma_no_2("HGX B300"@);
    lemma_holds_itself("HGX B300"@);
}

#[verifier::spinoff_prover]
proof fn lemma_chars_gb200()
    ensures
        !"GB200 NVL72"@.contains('H'),
{
    reveal_strlit("GB200 NVL72");
}

#[verifier::spinoff_prover]
proof fn lemma_name_gb200()
    ensures
        PlatformView::of_product_name("GB200 NVL72"@) == PlatformView::Gb200Nvl72,
{
    lemma_chars_gb200();
    lemma_no_h("GB200 NVL72"@);
    lemma_holds_itself("GB200 NVL72"@);
}

#[verifier::spinoff_prover]
proof fn lemma_chars_gb300()
    ensures
        !"GB300"@.contains('H'),
        !"GB300"@.contains('2'),
{
    reveal_strlit("GB300");
}

#[verifier::spinoff_prover]
proof fn lemma_name_gb300()
    ensures
        PlatformView::of_product_name("GB300"@) == PlatformView::Gb300,
{
    lemma_chars_gb300();
    lemma_no_h("GB300"@);
    lemma_no_2("GB300"@);
    lemma_holds_itself("GB300"@);
}

#[verifier::spinoff_prover]
proof fn lemma_chars_rubin()
    ensures
        !"Vera Rubin"@.contains('H'),
        !"Vera Rubin"@.contains('2'),
        !"Vera Rubin"@.contains('3'),
{
    reveal_strlit("Vera Rubin");
}

#[verifier::spinoff_prover]
proof fn lemma_name_rubin()
    ensures
        PlatformView::of_product_name("Vera Rubin"@) == PlatformView::VeraRubin,
{
    lemma_chars_rubin();
    lemma_no_h("Vera Rubin"@);
    lemma_no_2("Vera Rubin"@);
    lemma_no_3("Vera Rubin"@);
    lemma_holds_itself("Vera Rubin"@);
}

/// The name of a detected platform is a product name of that platform.
pub proof fn law_name_detects_itself(s: Seq<char>)
    ensures
        PlatformView::of_product_name(PlatformView::of_product_name(s).name())
            == PlatformView::of_product_name(s),
{
    lemma_name_h100();
    lemma_name_b200();
    lemma_name_b300();
    lemma_name_gb200();
    lemma_name_gb300();
    lemma_name_rubin();
}

/// A product name is that of a platform iff it holds a mark of that platform and none of a
/// platform that comes before: HGX H100, HGX B200, HGX B300, GB200 NVL72 with or without its
/// space, GB300, Vera Rubin or VR200. One without any mark is that of no known platform, which
/// then goes by the product name itself.
pub proof fn law_platform_by_marks(s: Seq<char>)
    ensures
        ({
            let p = PlatformView::of_product_name(s);
            let h100 = text::occurs(s, "HGX H100"@);
            let b200 = text::occurs(s, "HGX B200"@);
            let b300 = text::occurs(s, "HGX B300"@);
            let gb200 = text::occurs(s, "GB200 NVL72"@) || text::occurs(s, "GB200NVL72"@);
            let gb300 = text::occurs(s, "GB300"@);
            let rubin = text::occurs(s, "Vera Rubin"@) || text::occurs(s, "VR200"@);
            &&& p is HgxH100 <==> h100
            &&& p is HgxB200 <==> b200 && !h100
            &&& p is HgxB300 <==> b300 && !(h100 || b200)
            &&& p is Gb200Nvl72 <==> gb200 && !(h100 || b200 || b300)
            &&& p is Gb300 <==> gb300 && !(h100 || b200 || b300 || gb200)
            &&& p is VeraRubin <==> rubin && !(h100 || b200 || b300 || gb200 || gb300)
            &&& p is Unknown <==> !(h100 || b200 || b300 || gb200 || gb300 || rubin)
            &&& p is Unknown ==> p->Unknown_0 == s
        }),
{
}

/// The name of a known platform is its mark; an unknown one goes by its product name. Each known
/// platform has one NVLink partition, and of an unknown one nothing is expected.
pub proof fn law_platform_by_name(p: PlatformView)
    ensures
        p is HgxH100 ==> p.name() == "HGX H100"@,
        p is HgxB200 ==> p.name() == "HGX B200"@,
        p is HgxB300 ==> p.name() == "HGX B300"@,
        p is Gb200Nvl72 ==> p.name() == "GB200 NVL72"@,
        p is Gb300 ==> p.name() == "GB300"@,
        p is VeraRubin ==> p.name() == "Vera Rubin"@,
        p is Unknown ==> p.name() == p->Unknown_0,
        p.partitions() is None <==> p is Unknown,
        p.partitions() matches Some(n) ==> n == 1,
{
}

/// White space around the product name does not matter, and a product name that cannot be read
/// is as good as an empty one.
pub proof fn law_detected_without_white_space(raw: Seq<char>) -> (lead: nat)
    ensures
        PlatformView::detected(None) == PlatformView::of_product_name(Seq::empty()),
        PlatformView::detected(Some(raw)) == PlatformView::of_product_name(text::trimmed(raw)),
        lead + text::trimmed(raw).len() <= raw.len(),
        text::trimmed(raw) == raw.subrange(
            lead as int,
            (lead + text::trimmed(raw).len()) as int,
        ),
        forall|i: int|
            0 <= i < lead || lead + text::trimmed(raw).len() <= i < raw.len()
                ==> text::is_white_space(#[trigger] raw[i]),
{
    text::law_trimmed_takes_white_space(raw)
}

} // verus!
