//! The curve families that the synthesizer knows, their groups, and the
//! names under which each group's symbols appear on the device.

use vstd::prelude::*;

verus! {

/// A family of pairing-friendly or cycle curves.
#[derive(Clone, Copy, Debug, PartialEq, Eq, Structural)]
pub enum CurveFamily {
    Bn382,
    Bls12381,
    Bls12377,
    Bn254,
    Tweedle,
}

/// One group of one family.
#[derive(Clone, Copy, Debug, PartialEq, Eq, Structural)]
pub enum CurveGroup {
    Bn382G,
    Bn382G1,
    Bn382G2,
    Bls12381G1,
    Bls12381G2,
    Bls12377G1,
    Bls12377G2,
    Bn254G1,
    Bn254G2,
    TweedleDee,
    TweedleDum,
}

impl CurveFamily {
    /// The groups of the family, in the order in which their sources are
    /// emitted.
    pub open spec fn spec_groups(self) -> Seq<CurveGroup> {
        match self {
            CurveFamily::Bn382 => seq![CurveGroup::Bn382G, CurveGroup::Bn382G1, CurveGroup::Bn382G2],
            CurveFamily::Bls12381 => seq![CurveGroup::Bls12381G1, CurveGroup::Bls12381G2],
            CurveFamily::Bls12377 => seq![CurveGroup::Bls12377G1, CurveGroup::Bls12377G2],
            CurveFamily::Bn254 => seq![CurveGroup::Bn254G1, CurveGroup::Bn254G2],
            CurveFamily::Tweedle => seq![CurveGroup::TweedleDee, CurveGroup::TweedleDum],
        }
    }

    /// Whether the family's sources include a quadratic extension field.
    pub open spec fn spec_has_fp2(self) -> bool {
        self != CurveFamily::Tweedle
    }

    /// The groups of the family, in emission order.
    pub fn groups(self) -> (groups: Vec<CurveGroup>)
        ensures
            groups@ == self.spec_groups(),
    {
        let mut groups: Vec<CurveGroup> = Vec::new();
        match self {
            CurveFamily::Bn382 => {
                groups.push(CurveGroup::Bn382G);
                groups.push(CurveGroup::Bn382G1);
                groups.push(CurveGroup::Bn382G2);
            },
            CurveFamily::Bls12381 => {
                groups.push(CurveGroup::Bls12381G1);
                groups.push(CurveGroup::Bls12381G2);
            },
            CurveFamily::Bls12377 => {
                groups.push(CurveGroup::Bls12377G1);
                groups.push(CurveGroup::Bls12377G2);
            },
            CurveFamily::Bn254 => {
                groups.push(CurveGroup::Bn254G1);
                groups.push(CurveGroup::Bn254G2);
            },
            CurveFamily::Tweedle => {
                groups.push(CurveGroup::TweedleDee);
                groups.push(CurveGroup::TweedleDum);
            },
        }
        assert(groups@ =~= self.spec_groups());
        groups
    }

    /// Whether the family's sources include a quadratic extension field.
    pub fn has_fp2(self) -> (yes: bool)
        ensures
            yes == self.spec_has_fp2(),
    {
        match self {
            CurveFamily::Tweedle => false,
            _ => true,
        }
    }
}

impl CurveGroup {
    /// The family that the group belongs to.
    pub open spec fn spec_family(self) -> CurveFamily {
        match self {
            CurveGroup::Bn382G | CurveGroup::Bn382G1 | CurveGroup::Bn382G2 => CurveFamily::Bn382,
            CurveGroup::Bls12381G1 | CurveGroup::Bls12381G2 => CurveFamily::Bls12381,
            CurveGroup::Bls12377G1 | CurveGroup::Bls12377G2 => CurveFamily::Bls12377,
            CurveGroup::Bn254G1 | CurveGroup::Bn254G2 => CurveFamily::Bn254,
            CurveGroup::TweedleDee | CurveGroup::TweedleDum => CurveFamily::Tweedle,
        }
    }

    /// The name that replaces `POINT` in the group's sources.
    pub open spec fn point_text(self) -> Seq<char> {
        match self {
            CurveGroup::Bn382G => "G"@,
            CurveGroup::Bn382G1 | CurveGroup::Bls12381G1 | CurveGroup::Bls12377G1 | CurveGroup::Bn254G1 => "G1"@,
            CurveGroup::Bn382G2 | CurveGroup::Bls12381G2 | CurveGroup::Bls12377G2 | CurveGroup::Bn254G2 => "G2"@,
            CurveGroup::TweedleDee => "Dee"@,
            CurveGroup::TweedleDum => "Dum"@,
        }
    }

    /// The name of the field over which the group's points have their
    /// coordinates; it replaces `FIELD` in the curve arithmetic.
    pub open spec fn base_text(self) -> Seq<char> {
        match self {
            CurveGroup::Bn382G | CurveGroup::TweedleDum => "Fr"@,
            CurveGroup::Bn382G1 | CurveGroup::Bls12381G1 | CurveGroup::Bls12377G1 | CurveGroup::Bn254G1 | CurveGroup::TweedleDee => "Fq"@,
            CurveGroup::Bn382G2 | CurveGroup::Bls12381G2 | CurveGroup::Bls12377G2 | CurveGroup::Bn254G2 => "Fq2"@,
        }
    }

    /// The name of the field of the group's scalars; it replaces `EXPONENT`.
    pub open spec fn scalar_text(self) -> Seq<char> {
        match self {
            CurveGroup::TweedleDum => "Fq"@,
            _ => "Fr"@,
        }
    }

    /// The prefix of the group's kernel symbols on the device.
    pub open spec fn prefix_text(self) -> Seq<char> {
        match self {
            CurveGroup::Bn382G => "G_"@,
            CurveGroup::Bn382G1 | CurveGroup::Bls12381G1 | CurveGroup::Bls12377G1 | CurveGroup::Bn254G1 => "G1_"@,
            CurveGroup::Bn382G2 | CurveGroup::Bls12381G2 | CurveGroup::Bls12377G2 | CurveGroup::Bn254G2 => "G2_"@,
            CurveGroup::TweedleDee => "Dee_"@,
            CurveGroup::TweedleDum => "Dum_"@,
        }
    }

    pub fn family(self) -> (family: CurveFamily)
        ensures
            family == self.spec_family(),
    {
        match self {
            CurveGroup::Bn382G | CurveGroup::Bn382G1 | CurveGroup::Bn382G2 => CurveFamily::Bn382,
            CurveGroup::Bls12381G1 | CurveGroup::Bls12381G2 => CurveFamily::Bls12381,
            CurveGroup::Bls12377G1 | CurveGroup::Bls12377G2 => CurveFamily::Bls12377,
            CurveGroup::Bn254G1 | CurveGroup::Bn254G2 => CurveFamily::Bn254,
            CurveGroup::TweedleDee | CurveGroup::TweedleDum => CurveFamily::Tweedle,
        }
    }

    pub fn point_name(self) -> (name: &'static str)
        ensures
            name@ == self.point_text(),
    {
        match self {
            CurveGroup::Bn382G => "G",
            CurveGroup::Bn382G1 | CurveGroup::Bls12381G1 | CurveGroup::Bls12377G1 | CurveGroup::Bn254G1 => "G1",
            CurveGroup::Bn382G2 | CurveGroup::Bls12381G2 | CurveGroup::Bls12377G2 | CurveGroup::Bn254G2 => "G2",
            CurveGroup::TweedleDee => "Dee",
            CurveGroup::TweedleDum => "Dum",
        }
    }

    pub fn base_field_name(self) -> (name: &'static str)
        ensures
            name@ == self.base_text(),
    {
        match self {
            CurveGroup::Bn382G | CurveGroup::TweedleDum => "Fr",
            CurveGroup::Bn382G1 | CurveGroup::Bls12381G1 | CurveGroup::Bls12377G1 | CurveGroup::Bn254G1 | CurveGroup::TweedleDee => "Fq",
            CurveGroup::Bn382G2 | CurveGroup::Bls12381G2 | CurveGroup::Bls12377G2 | CurveGroup::Bn254G2 => "Fq2",
        }
    }

    pub fn scalar_field_name(self) -> (name: &'static str)
        ensures
            name@ == self.scalar_text(),
    {
        match self {
            CurveGroup::TweedleDum => "Fq",
            _ => "Fr",
        }
    }

    pub fn prefix(self) -> (name: &'static str)
        ensures
            name@ == self.prefix_text(),
    {
        match self {
            CurveGroup::Bn382G => "G_",
            CurveGroup::Bn382G1 | CurveGroup::Bls12381G1 | CurveGroup::Bls12377G1 | CurveGroup::Bn254G1 => "G1_",
            CurveGroup::Bn382G2 | CurveGroup::Bls12381G2 | CurveGroup::Bls12377G2 | CurveGroup::Bn254G2 => "G2_",
            CurveGroup::TweedleDee => "Dee_",
            CurveGroup::TweedleDum => "Dum_",
        }
    }
}

/// The position of a family among the families.
pub open spec fn family_index(family: CurveFamily) -> nat {
    match family {
        CurveFamily::Bn382 => 0,
        CurveFamily::Bls12381 => 1,
        CurveFamily::Bls12377 => 2,
        CurveFamily::Bn254 => 3,
        CurveFamily::Tweedle => 4,
    }
}

/// The position of a group among the groups.
pub open spec fn group_index(group: CurveGroup) -> nat {
    match group {
        CurveGroup::Bn382G => 0,
        CurveGroup::Bn382G1 => 1,
        CurveGroup::Bn382G2 => 2,
        CurveGroup::Bls12381G1 => 3,
        CurveGroup::Bls12381G2 => 4,
        CurveGroup::Bls12377G1 => 5,
        CurveGroup::Bls12377G2 => 6,
        CurveGroup::Bn254G1 => 7,
        CurveGroup::Bn254G2 => 8,
        CurveGroup::TweedleDee => 9,
        CurveGroup::TweedleDum => 10,
    }
}

/// The position of a family among the families.
pub fn index_of_family(family: CurveFamily) -> (i: u64)
    ensures
        i == family_index(family),
{
    match family {
        CurveFamily::Bn382 => 0,
        CurveFamily::Bls12381 => 1,
        CurveFamily::Bls12377 => 2,
        CurveFamily::Bn254 => 3,
        CurveFamily::Tweedle => 4,
    }
}

/// The position of a group among the groups.
pub fn index_of_group(group: CurveGroup) -> (i: u64)
    ensures
        i == group_index(group),
{
    match group {
        CurveGroup::Bn382G => 0,
        CurveGroup::Bn382G1 => 1,
        CurveGroup::Bn382G2 => 2,
        CurveGroup::Bls12381G1 => 3,
        CurveGroup::Bls12381G2 => 4,
        CurveGroup::Bls12377G1 => 5,
        CurveGroup::Bls12377G2 => 6,
        CurveGroup::Bn254G1 => 7,
        CurveGroup::Bn254G2 => 8,
        CurveGroup::TweedleDee => 9,
        CurveGroup::TweedleDum => 10,
    }
}

/// Every group is listed among the groups of its own family, exactly once.
pub proof fn lemma_group_in_its_family(group: CurveGroup)
    ensures
        group.spec_family().spec_groups().contains(group),
        forall|i: int, j: int|
            #![trigger group.spec_family().spec_groups()[i], group.spec_family().spec_groups()[j]]
            0 <= i < j < group.spec_family().spec_groups().len()
                ==> group.spec_family().spec_groups()[i] != group.spec_family().spec_groups()[j],
        forall|i: int|
            0 <= i < group.spec_family().spec_groups().len()
                ==> (#[trigger] group.spec_family().spec_groups()[i]).spec_family()
                == group.spec_family(),
{
    let groups = group.spec_family().spec_groups();
    match group {
        CurveGroup::Bn382G | CurveGroup::Bls12381G1 | CurveGroup::Bls12377G1 | CurveGroup::Bn254G1 | CurveGroup::TweedleDee => {
            assert(groups[0] == group);
        },
        CurveGroup::Bn382G1 | CurveGroup::Bls12381G2 | CurveGroup::Bls12377G2 | CurveGroup::Bn254G2 | CurveGroup::TweedleDum => {
            assert(groups[1] == group);
        },
        CurveGroup::Bn382G2 => {
            assert(groups[2] == group);
        },
    }
}

/// The symbol prefix of a group is its point name followed by an underscore,
/// so the symbols that the sources define are the ones that the host asks for.
pub proof fn lemma_prefix_is_point_name(group: CurveGroup)
    ensures
        group.prefix_text() == group.point_text() + seq!['_'],
{
    reveal_strlit("G");
    reveal_strlit("G1");
    reveal_strlit("G2");
    reveal_strlit("Dee");
    reveal_strlit("Dum");
    reveal_strlit("G_");
    reveal_strlit("G1_");
    reveal_strlit("G2_");
    reveal_strlit("Dee_");
    reveal_strlit("Dum_");
    assert(group.prefix_text() =~= group.point_text() + seq!['_']);
}

/// Two different groups of one family never share a symbol prefix.
pub proof fn lemma_prefixes_distinct(a: CurveGroup, b: CurveGroup)
    requires
        a.spec_family() == b.spec_family(),
        a != b,
    ensures
        a.prefix_text() != b.prefix_text(),
{
    reveal_strlit("G_");
    reveal_strlit("G1_");
    reveal_strlit("G2_");
    reveal_strlit("Dee_");
    reveal_strlit("Dum_");
    let pa = a.prefix_text();
    let pb = b.prefix_text();
    if pa.len() == pb.len() {
        assert(pa[1] != pb[1]);
    }
}

} // verus!
