//! Tool bar areas, tool bar feature flags, and the tool bar's item model.

use vstd::prelude::*;

use crate::utf8_text::owned;

use crate::tool_button::ToolButtonStyle;

verus! {

/// Layout orientation of a bar or a widget.
#[derive(Debug, Clone, Copy, PartialEq, Eq, Structural)]
pub enum Orientation {
    Horizontal,
    Vertical,
}

/// Tool bar areas within a main window.
#[derive(Debug, Clone, Copy, PartialEq, Eq, Structural, Hash)]
pub enum ToolBarArea {
    /// Top toolbar area (below menu bar).
    Top,
    /// Bottom toolbar area (above status bar).
    Bottom,
    /// Left toolbar area.
    Left,
    /// Right toolbar area.
    Right,
}

/// The four areas, in the order `ToolBarArea::all` gives them.
pub open spec fn all_areas() -> Seq<ToolBarArea> {
    seq![ToolBarArea::Top, ToolBarArea::Bottom, ToolBarArea::Left, ToolBarArea::Right]
}

impl ToolBarArea {
    pub open spec fn spec_is_horizontal(self) -> bool {
        self == ToolBarArea::Top || self == ToolBarArea::Bottom
    }

    /// Returns all toolbar areas: top, bottom, left, right.
    pub fn all() -> (r: Vec<ToolBarArea>)
        ensures
            r@ == all_areas(),
    {
        vec![ToolBarArea::Top, ToolBarArea::Bottom, ToolBarArea::Left, ToolBarArea::Right]
    }

    /// Check if this is a horizontal toolbar area (top or bottom).
    pub fn is_horizontal(&self) -> (r: bool)
        ensures
            r == self.spec_is_horizontal(),
    {
        match self {
            ToolBarArea::Top | ToolBarArea::Bottom => true,
            _ => false,
        }
    }

    /// Check if this is a vertical toolbar area (left or right).
    pub fn is_vertical(&self) -> (r: bool)
        ensures
            r == !self.spec_is_horizontal(),
    {
        match self {
            ToolBarArea::Left | ToolBarArea::Right => true,
            _ => false,
        }
    }

    /// The natural orientation of toolbars in this area.
    pub fn orientation(&self) -> (r: Orientation)
        ensures
            r == (if self.spec_is_horizontal() { Orientation::Horizontal } else { Orientation::Vertical }),
    {
        if self.is_horizontal() {
            Orientation::Horizontal
        } else {
            Orientation::Vertical
        }
    }
}

/// The bit that stands for `area` in a `ToolBarAreas` value.
pub open spec fn area_bit(area: ToolBarArea) -> u8 {
    match area {
        ToolBarArea::Top => 1,
        ToolBarArea::Bottom => 2,
        ToolBarArea::Left => 4,
        ToolBarArea::Right => 8,
    }
}

/// What a byte of flags says of one area.
pub open spec fn bits_have(bits: u8, area: ToolBarArea) -> bool {
    bits & area_bit(area) != 0
}

/// The set of areas that a byte of flags names.
pub open spec fn areas_of_bits(bits: u8) -> Set<ToolBarArea> {
    Set::new(|a: ToolBarArea| bits_have(bits, a))
}

proof fn lemma_area_bits(x: u8, y: u8)
    by (bit_vector)
    ensures
        x < 16 && y < 16 ==> (x | y) < 16,
        x < 16 ==> (x & y) < 16,
        (x | y) & 1 != 0 <==> (x & 1 != 0 || y & 1 != 0),
        (x | y) & 2 != 0 <==> (x & 2 != 0 || y & 2 != 0),
        (x | y) & 4 != 0 <==> (x & 4 != 0 || y & 4 != 0),
        (x | y) & 8 != 0 <==> (x & 8 != 0 || y & 8 != 0),
        (x & y) & 1 != 0 <==> (x & 1 != 0 && y & 1 != 0),
        (x & y) & 2 != 0 <==> (x & 2 != 0 && y & 2 != 0),
        (x & y) & 4 != 0 <==> (x & 4 != 0 && y & 4 != 0),
        (x & y) & 8 != 0 <==> (x & 8 != 0 && y & 8 != 0),
        x < 16 ==> (x == 0 <==> (x & 1 == 0 && x & 2 == 0 && x & 4 == 0 && x & 8 == 0)),
        y < 16 ==> ((x & y) == y <==> ((y & 1 != 0 ==> x & 1 != 0) && (y & 2 != 0 ==> x & 2 != 0) && (y & 4
            != 0 ==> x & 4 != 0) && (y & 8 != 0 ==> x & 8 != 0))),
        1u8 & 1 != 0 && 1u8 & 2 == 0 && 1u8 & 4 == 0 && 1u8 & 8 == 0,
        2u8 & 1 == 0 && 2u8 & 2 != 0 && 2u8 & 4 == 0 && 2u8 & 8 == 0,
        4u8 & 1 == 0 && 4u8 & 2 == 0 && 4u8 & 4 != 0 && 4u8 & 8 == 0,
        8u8 & 1 == 0 && 8u8 & 2 == 0 && 8u8 & 4 == 0 && 8u8 & 8 != 0,
        15u8 & 1 != 0 && 15u8 & 2 != 0 && 15u8 & 4 != 0 && 15u8 & 8 != 0,
{
}

/// One area as a sequence of length one when the set holds it, else empty.
pub open spec fn area_if_in(areas: Set<ToolBarArea>, area: ToolBarArea) -> Seq<ToolBarArea> {
    if areas.contains(area) {
        seq![area]
    } else {
        Seq::empty()
    }
}

/// The areas of a set in the order top, bottom, left, right.
pub open spec fn areas_in_order(areas: Set<ToolBarArea>) -> Seq<ToolBarArea> {
    area_if_in(areas, ToolBarArea::Top) + area_if_in(areas, ToolBarArea::Bottom) + area_if_in(
        areas,
        ToolBarArea::Left,
    ) + area_if_in(areas, ToolBarArea::Right)
}

fn bit_for(area: ToolBarArea) -> (r: u8)
    ensures
        r == area_bit(area),
{
    match area {
        ToolBarArea::Top => 1,
        ToolBarArea::Bottom => 2,
        ToolBarArea::Left => 4,
        ToolBarArea::Right => 8,
    }
}

/// A set of toolbar areas represented as bit flags.
#[derive(Debug, Clone, Copy, PartialEq, Eq, Structural)]
pub struct ToolBarAreas(u8);

impl View for ToolBarAreas {
    type V = Set<ToolBarArea>;

    closed spec fn view(&self) -> Set<ToolBarArea> {
        areas_of_bits(self.0)
    }
}

impl ToolBarAreas {
    #[verifier::type_invariant]
    spec fn inv(self) -> bool {
        self.0 < 16
    }

    /// No toolbar areas.
    #[allow(non_snake_case)]
    pub fn NONE() -> (r: ToolBarAreas)
        ensures
            r@ == Set::<ToolBarArea>::empty(),
    {
        proof {
            lemma_area_bits(0, 0);
        }
        let r = ToolBarAreas(0);
        assert(r@ =~= Set::<ToolBarArea>::empty());
        r
    }

    /// Top toolbar area.
    #[allow(non_snake_case)]
    pub fn TOP() -> (r: ToolBarAreas)
        ensures
            r@ == set![ToolBarArea::Top],
    {
        Self::from_area(ToolBarArea::Top)
    }

    /// Bottom toolbar area.
    #[allow(non_snake_case)]
    pub fn BOTTOM() -> (r: ToolBarAreas)
        ensures
            r@ == set![ToolBarArea::Bottom],
    {
        Self::from_area(ToolBarArea::Bottom)
    }

    /// Left toolbar area.
    #[allow(non_snake_case)]
    pub fn LEFT() -> (r: ToolBarAreas)
        ensures
            r@ == set![ToolBarArea::Left],
    {
        Self::from_area(ToolBarArea::Left)
    }

    /// Right toolbar area.
    #[allow(non_snake_case)]
    pub fn RIGHT() -> (r: ToolBarAreas)
        ensures
            r@ == set![ToolBarArea::Right],
    {
        Self::from_area(ToolBarArea::Right)
    }

    /// All toolbar areas.
    #[allow(non_snake_case)]
    pub fn ALL() -> (r: ToolBarAreas)
        ensures
            r@ == all_areas().to_set(),
    {
        proof {
            lemma_area_bits(15, 15);
        }
        let r = ToolBarAreas(15);
        assert(all_areas().contains(ToolBarArea::Top));
        assert(all_areas().contains(ToolBarArea::Bottom));
        assert(all_areas().contains(ToolBarArea::Left));
        assert(all_areas().contains(ToolBarArea::Right));
        assert(r@ =~= all_areas().to_set());
        r
    }

    /// Create from a single toolbar area.
    pub fn from_area(area: ToolBarArea) -> (r: Self)
        ensures
            r@ == set![area],
    {
        proof {
            lemma_area_bits(0, 0);
        }
        let r = match area {
            ToolBarArea::Top => ToolBarAreas(1),
            ToolBarArea::Bottom => ToolBarAreas(2),
            ToolBarArea::Left => ToolBarAreas(4),
            ToolBarArea::Right => ToolBarAreas(8),
        };
        assert(r@ =~= set![area]);
        r
    }

    /// Check if this set contains the specified area.
    pub fn contains(&self, area: ToolBarArea) -> (r: bool)
        ensures
            r == self@.contains(area),
    {
        let f = bit_for(area);
        (self.0 & f) != 0
    }

    /// Check if this set contains all of the specified areas.
    pub fn contains_areas(&self, areas: ToolBarAreas) -> (r: bool)
        ensures
            r == areas@.subset_of(self@),
    {
        proof {
            use_type_invariant(self);
            use_type_invariant(&areas);
            lemma_area_bits(self.0, areas.0);
            assert(areas@.contains(ToolBarArea::Top) == bits_have(areas.0, ToolBarArea::Top));
            assert(areas@.contains(ToolBarArea::Bottom) == bits_have(areas.0, ToolBarArea::Bottom));
            assert(areas@.contains(ToolBarArea::Left) == bits_have(areas.0, ToolBarArea::Left));
            assert(areas@.contains(ToolBarArea::Right) == bits_have(areas.0, ToolBarArea::Right));
            assert(self@.contains(ToolBarArea::Top) == bits_have(self.0, ToolBarArea::Top));
            assert(self@.contains(ToolBarArea::Bottom) == bits_have(self.0, ToolBarArea::Bottom));
            assert(self@.contains(ToolBarArea::Left) == bits_have(self.0, ToolBarArea::Left));
            assert(self@.contains(ToolBarArea::Right) == bits_have(self.0, ToolBarArea::Right));
            if (self.0 & areas.0) == areas.0 {
                assert forall|a: ToolBarArea| areas@.contains(a) implies self@.contains(a) by {
                    match a {
                        ToolBarArea::Top => {},
                        ToolBarArea::Bottom => {},
                        ToolBarArea::Left => {},
                        ToolBarArea::Right => {},
                    }
                }
            }
        }
        (self.0 & areas.0) == areas.0
    }

    /// Check if this set is empty.
    pub fn is_empty(&self) -> (r: bool)
        ensures
            r == (self@ == Set::<ToolBarArea>::empty()),
    {
        proof {
            use_type_invariant(self);
            lemma_area_bits(self.0, self.0);
            if self.0 != 0 {
                if self.0 & 1 != 0 {
                    assert(self@.contains(ToolBarArea::Top));
                } else if self.0 & 2 != 0 {
                    assert(self@.contains(ToolBarArea::Bottom));
                } else if self.0 & 4 != 0 {
                    assert(self@.contains(ToolBarArea::Left));
                } else {
                    assert(self@.contains(ToolBarArea::Right));
                }
            } else {
                assert(self@ =~= Set::<ToolBarArea>::empty());
            }
        }
        self.0 == 0
    }

    /// The areas of this set, in the order top, bottom, left, right.
    pub fn iter(&self) -> (r: Vec<ToolBarArea>)
        ensures
            r@ == areas_in_order(self@),
    {
        let mut out: Vec<ToolBarArea> = Vec::new();
        if self.contains(ToolBarArea::Top) {
            out.push(ToolBarArea::Top);
        }
        if self.contains(ToolBarArea::Bottom) {
            out.push(ToolBarArea::Bottom);
        }
        if self.contains(ToolBarArea::Left) {
            out.push(ToolBarArea::Left);
        }
        if self.contains(ToolBarArea::Right) {
            out.push(ToolBarArea::Right);
        }
        assert(out@ =~= areas_in_order(self@));
        out
    }

    /// The union of two sets of areas.
    pub fn union(self, rhs: ToolBarAreas) -> (r: ToolBarAreas)
        ensures
            r@ == self@.union(rhs@),
    {
        proof {
            use_type_invariant(&self);
            use_type_invariant(&rhs);
            lemma_area_bits(self.0, rhs.0);
        }
        let r = ToolBarAreas(self.0 | rhs.0);
        assert(r@ =~= self@.union(rhs@));
        r
    }

    /// The intersection of two sets of areas.
    pub fn intersection(self, rhs: ToolBarAreas) -> (r: ToolBarAreas)
        ensures
            r@ == self@.intersect(rhs@),
    {
        proof {
            use_type_invariant(&self);
            use_type_invariant(&rhs);
            lemma_area_bits(self.0, rhs.0);
        }
        let r = ToolBarAreas(self.0 & rhs.0);
        assert(r@ =~= self@.intersect(rhs@));
        r
    }
}

impl core::ops::BitOr for ToolBarAreas {
    type Output = Self;

    fn bitor(self, rhs: Self) -> (r: Self) {
        proof {
            use_type_invariant(&self);
            use_type_invariant(&rhs);
            lemma_area_bits(self.0, rhs.0);
        }
        ToolBarAreas(self.0 | rhs.0)
    }
}

impl vstd::std_specs::ops::BitOrSpecImpl for ToolBarAreas {
    open spec fn obeys_bitor_spec() -> bool {
        true
    }

    open spec fn bitor_req(self, rhs: Self) -> bool {
        true
    }

    closed spec fn bitor_spec(self, rhs: Self) -> Self {
        ToolBarAreas(self.0 | rhs.0)
    }
}

impl core::ops::BitOrAssign for ToolBarAreas {
    fn bitor_assign(&mut self, rhs: Self)
        ensures
            final(self)@ == old(self)@.union(rhs@),
    {
        proof {
            use_type_invariant(&*self);
            use_type_invariant(&rhs);
            lemma_area_bits(self.0, rhs.0);
        }
        let r = ToolBarAreas(self.0 | rhs.0);
        assert(r@ =~= self@.union(rhs@));
        *self = r;
    }
}

/// `a | b` on sets of areas is their union.
pub broadcast proof fn lemma_areas_bitor(a: ToolBarAreas, b: ToolBarAreas)
    ensures
        #[trigger] vstd::std_specs::ops::BitOrSpec::bitor_spec(a, b)@ == a@.union(b@),
{
    lemma_area_bits(a.0, b.0);
    assert(vstd::std_specs::ops::BitOrSpec::bitor_spec(a, b)@ =~= a@.union(b@));
}

impl core::ops::BitAnd for ToolBarAreas {
    type Output = Self;

    fn bitand(self, rhs: Self) -> (r: Self) {
        proof {
            use_type_invariant(&self);
            lemma_area_bits(self.0, rhs.0);
        }
        ToolBarAreas(self.0 & rhs.0)
    }
}

impl vstd::std_specs::ops::BitAndSpecImpl for ToolBarAreas {
    open spec fn obeys_bitand_spec() -> bool {
        true
    }

    open spec fn bitand_req(self, rhs: Self) -> bool {
        true
    }

    closed spec fn bitand_spec(self, rhs: Self) -> Self {
        ToolBarAreas(self.0 & rhs.0)
    }
}

/// `a & b` on sets of areas is their intersection.
pub broadcast proof fn lemma_areas_bitand(a: ToolBarAreas, b: ToolBarAreas)
    ensures
        #[trigger] vstd::std_specs::ops::BitAndSpec::bitand_spec(a, b)@ == a@.intersect(b@),
{
    lemma_area_bits(a.0, b.0);
    assert(vstd::std_specs::ops::BitAndSpec::bitand_spec(a, b)@ =~= a@.intersect(b@));
}

impl core::ops::BitOr<ToolBarArea> for ToolBarAreas {
    type Output = Self;

    fn bitor(self, rhs: ToolBarArea) -> (r: Self) {
        let b = bit_for(rhs);
        proof {
            use_type_invariant(&self);
            lemma_area_bits(self.0, b);
        }
        ToolBarAreas(self.0 | b)
    }
}

impl vstd::std_specs::ops::BitOrSpecImpl<ToolBarArea> for ToolBarAreas {
    open spec fn obeys_bitor_spec() -> bool {
        true
    }

    open spec fn bitor_req(self, rhs: ToolBarArea) -> bool {
        true
    }

    closed spec fn bitor_spec(self, rhs: ToolBarArea) -> Self {
        ToolBarAreas(self.0 | area_bit(rhs))
    }
}

impl core::ops::BitOr<ToolBarAreas> for ToolBarArea {
    type Output = ToolBarAreas;

    fn bitor(self, rhs: ToolBarAreas) -> (r: ToolBarAreas) {
        let b = bit_for(self);
        proof {
            use_type_invariant(&rhs);
            lemma_area_bits(b, rhs.0);
        }
        ToolBarAreas(b | rhs.0)
    }
}

impl vstd::std_specs::ops::BitOrSpecImpl<ToolBarAreas> for ToolBarArea {
    open spec fn obeys_bitor_spec() -> bool {
        true
    }

    open spec fn bitor_req(self, rhs: ToolBarAreas) -> bool {
        true
    }

    closed spec fn bitor_spec(self, rhs: ToolBarAreas) -> ToolBarAreas {
        ToolBarAreas(area_bit(self) | rhs.0)
    }
}

impl core::ops::BitOr for ToolBarArea {
    type Output = ToolBarAreas;

    fn bitor(self, rhs: ToolBarArea) -> (r: ToolBarAreas) {
        let a = bit_for(self);
        let b = bit_for(rhs);
        proof {
            lemma_area_bits(a, b);
        }
        ToolBarAreas(a | b)
    }
}

impl vstd::std_specs::ops::BitOrSpecImpl for ToolBarArea {
    open spec fn obeys_bitor_spec() -> bool {
        true
    }

    open spec fn bitor_req(self, rhs: ToolBarArea) -> bool {
        true
    }

    closed spec fn bitor_spec(self, rhs: ToolBarArea) -> ToolBarAreas {
        ToolBarAreas(area_bit(self) | area_bit(rhs))
    }
}

/// Adding one area to a set gives the set with that area inserted.
pub broadcast proof fn lemma_areas_bitor_area(s: ToolBarAreas, a: ToolBarArea)
    ensures
        #[trigger] vstd::std_specs::ops::BitOrSpec::<ToolBarArea>::bitor_spec(s, a)@ == s@.insert(a),
{
    lemma_area_bits(s.0, area_bit(a));
    lemma_area_bits(area_bit(a), area_bit(a));
    assert(vstd::std_specs::ops::BitOrSpec::<ToolBarArea>::bitor_spec(s, a)@ =~= s@.insert(a));
}

/// An area joined with a set gives the set with that area inserted.
pub broadcast proof fn lemma_area_bitor_areas(a: ToolBarArea, s: ToolBarAreas)
    ensures
        #[trigger] vstd::std_specs::ops::BitOrSpec::<ToolBarAreas>::bitor_spec(a, s)@ == s@.insert(a),
{
    lemma_area_bits(area_bit(a), s.0);
    lemma_area_bits(area_bit(a), area_bit(a));
    assert(vstd::std_specs::ops::BitOrSpec::<ToolBarAreas>::bitor_spec(a, s)@ =~= s@.insert(a));
}

/// Two areas joined give the set of both.
pub broadcast proof fn lemma_area_bitor(a: ToolBarArea, b: ToolBarArea)
    ensures
        #[trigger] vstd::std_specs::ops::BitOrSpec::<ToolBarArea>::bitor_spec(a, b)@ == set![a, b],
{
    lemma_area_bits(area_bit(a), area_bit(b));
    lemma_area_bits(area_bit(a), area_bit(a));
    lemma_area_bits(area_bit(b), area_bit(b));
    assert(vstd::std_specs::ops::BitOrSpec::<ToolBarArea>::bitor_spec(a, b)@ =~= set![a, b]);
}

pub broadcast group group_tool_bar_areas {
    lemma_areas_bitor,
    lemma_areas_bitand,
    lemma_area_bitor,
    lemma_areas_bitor_area,
    lemma_area_bitor_areas,
}

/// Feature flags of a tool bar: movable (bit 1) and floatable (bit 2).
#[derive(Debug, Clone, Copy, PartialEq, Eq, Structural)]
pub struct ToolBarFeatures(u8);

proof fn lemma_feature_bits(x: u8, y: u8)
    by (bit_vector)
    ensures
        x < 4 && y < 4 ==> (x | y) < 4,
        x < 4 ==> (x & y) < 4,
        x < 4 ==> (x & 252) == 0,
        (x | y) & 1 != 0 <==> (x & 1 != 0 || y & 1 != 0),
        (x | y) & 2 != 0 <==> (x & 2 != 0 || y & 2 != 0),
        (x & y) & 1 != 0 <==> (x & 1 != 0 && y & 1 != 0),
        (x & y) & 2 != 0 <==> (x & 2 != 0 && y & 2 != 0),
        y < 4 ==> ((x & y) == y <==> ((y & 1 != 0 ==> x & 1 != 0) && (y & 2 != 0 ==> x & 2 != 0))),
        (x & !1u8) & 1 == 0 && ((x & !1u8) & 2 != 0 <==> x & 2 != 0),
        (x & !2u8) & 2 == 0 && ((x & !2u8) & 1 != 0 <==> x & 1 != 0),
        x < 4 ==> (x & !1u8) < 4 && (x & !2u8) < 4,
        x < 4 && y < 4 ==> (x == y <==> ((x & 1 != 0 <==> y & 1 != 0) && (x & 2 != 0 <==> y
            & 2 != 0))),
        1u8 & 1 != 0 && 1u8 & 2 == 0 && 2u8 & 1 == 0 && 2u8 & 2 != 0,
        0u8 & 1 == 0 && 0u8 & 2 == 0,
{
}

impl View for ToolBarFeatures {
    /// (movable, floatable)
    type V = (bool, bool);

    closed spec fn view(&self) -> (bool, bool) {
        (self.0 & 1 != 0, self.0 & 2 != 0)
    }
}

impl ToolBarFeatures {
    #[verifier::type_invariant]
    spec fn inv(self) -> bool {
        self.0 < 4
    }

    /// No features enabled.
    #[allow(non_snake_case)]
    pub fn NONE() -> (r: ToolBarFeatures)
        ensures
            r@ == (false, false),
    {
        proof {
            lemma_feature_bits(0, 0);
        }
        ToolBarFeatures(0)
    }

    /// The toolbar can be moved between areas.
    #[allow(non_snake_case)]
    pub fn MOVABLE() -> (r: ToolBarFeatures)
        ensures
            r@ == (true, false),
    {
        proof {
            lemma_feature_bits(1, 1);
        }
        ToolBarFeatures(1)
    }

    /// The toolbar can float as an independent panel.
    #[allow(non_snake_case)]
    pub fn FLOATABLE() -> (r: ToolBarFeatures)
        ensures
            r@ == (false, true),
    {
        proof {
            lemma_feature_bits(2, 2);
        }
        ToolBarFeatures(2)
    }

    /// All standard features (movable, floatable).
    pub fn all() -> (r: Self)
        ensures
            r@ == (true, true),
    {
        proof {
            lemma_feature_bits(1, 2);
        }
        ToolBarFeatures(1 | 2)
    }

    /// Check if every feature of `feature` is enabled here.
    pub fn has(&self, feature: ToolBarFeatures) -> (r: bool)
        ensures
            r == ((feature@.0 ==> self@.0) && (feature@.1 ==> self@.1)),
    {
        proof {
            use_type_invariant(&feature);
            lemma_feature_bits(self.0, feature.0);
        }
        (self.0 & feature.0) == feature.0
    }

    /// Check if movable.
    pub fn is_movable(&self) -> (r: bool)
        ensures
            r == self@.0,
    {
        self.has(Self::MOVABLE())
    }

    /// Check if floatable.
    pub fn is_floatable(&self) -> (r: bool)
        ensures
            r == self@.1,
    {
        self.has(Self::FLOATABLE())
    }

    /// These features with movability set as given.
    pub fn with_movable(self, movable: bool) -> (r: Self)
        ensures
            r@ == (movable, self@.1),
    {
        proof {
            use_type_invariant(&self);
            lemma_feature_bits(self.0, 1);
        }
        if movable {
            ToolBarFeatures(self.0 | 1)
        } else {
            ToolBarFeatures(self.0 & !1u8)
        }
    }

    /// These features with floatability set as given.
    pub fn with_floatable(self, floatable: bool) -> (r: Self)
        ensures
            r@ == (self@.0, floatable),
    {
        proof {
            use_type_invariant(&self);
            lemma_feature_bits(self.0, 2);
        }
        if floatable {
            ToolBarFeatures(self.0 | 2)
        } else {
            ToolBarFeatures(self.0 & !2u8)
        }
    }

    /// Whether two feature sets are the same.
    pub fn same_as(&self, other: &ToolBarFeatures) -> (r: bool)
        ensures
            r == (self@ == other@),
    {
        proof {
            use_type_invariant(self);
            use_type_invariant(other);
            lemma_feature_bits(self.0, other.0);
        }
        self.0 == other.0
    }
}

impl core::ops::BitOr for ToolBarFeatures {
    type Output = Self;

    fn bitor(self, rhs: Self) -> (r: Self) {
        proof {
            use_type_invariant(&self);
            use_type_invariant(&rhs);
            lemma_feature_bits(self.0, rhs.0);
        }
        ToolBarFeatures(self.0 | rhs.0)
    }
}

impl vstd::std_specs::ops::BitOrSpecImpl for ToolBarFeatures {
    open spec fn obeys_bitor_spec() -> bool {
        true
    }

    open spec fn bitor_req(self, rhs: Self) -> bool {
        true
    }

    closed spec fn bitor_spec(self, rhs: Self) -> Self {
        ToolBarFeatures(self.0 | rhs.0)
    }
}

impl core::ops::BitOrAssign for ToolBarFeatures {
    fn bitor_assign(&mut self, rhs: Self)
        ensures
            final(self)@ == (old(self)@.0 || rhs@.0, old(self)@.1 || rhs@.1),
    {
        proof {
            use_type_invariant(&*self);
            use_type_invariant(&rhs);
            lemma_feature_bits(self.0, rhs.0);
        }
        *self = ToolBarFeatures(self.0 | rhs.0);
    }
}

impl core::ops::BitAnd for ToolBarFeatures {
    type Output = Self;

    fn bitand(self, rhs: Self) -> (r: Self) {
        proof {
            use_type_invariant(&self);
            lemma_feature_bits(self.0, rhs.0);
        }
        ToolBarFeatures(self.0 & rhs.0)
    }
}

impl vstd::std_specs::ops::BitAndSpecImpl for ToolBarFeatures {
    open spec fn obeys_bitand_spec() -> bool {
        true
    }

    open spec fn bitand_req(self, rhs: Self) -> bool {
        true
    }

    closed spec fn bitand_spec(self, rhs: Self) -> Self {
        ToolBarFeatures(self.0 & rhs.0)
    }
}

/// `a | b` enables a feature when either enables it; `a & b` when both do.
pub broadcast proof fn lemma_features_ops(a: ToolBarFeatures, b: ToolBarFeatures)
    ensures
        #[trigger] vstd::std_specs::ops::BitOrSpec::bitor_spec(a, b)@ == (a@.0 || b@.0, a@.1 || b@.1),
        #[trigger] vstd::std_specs::ops::BitAndSpec::bitand_spec(a, b)@ == (a@.0 && b@.0, a@.1 && b@.1),
{
    lemma_feature_bits(a.0, b.0);
}

/// Whether an item goes in the overflow menu: separators do, actions unless hidden, widgets
/// never.
pub open spec fn in_overflow_menu(item: ToolBarItem, hidden: Seq<u64>) -> bool {
    match item {
        ToolBarItem::Action(id) => !hidden.contains(id),
        ToolBarItem::Separator => true,
        ToolBarItem::Widget(_) => false,
    }
}

/// Whether `id` is among `ids`.
fn contains_id(ids: &[u64], id: u64) -> (r: bool)
    ensures
        r == ids@.contains(id),
{
    let mut i: usize = 0;
    while i < ids.len()
        invariant
            i <= ids@.len(),
            forall|j: int| 0 <= j < i ==> ids@[j] != id,
        decreases ids@.len() - i,
    {
        if ids[i] == id {
            assert(ids@[i as int] == id);
            return true;
        }
        i = i + 1;
    }
    false
}

/// An item of a tool bar: an action button, a separator, or an embedded widget.
#[derive(Debug, Clone, Copy, PartialEq, Eq, Structural)]
pub enum ToolBarItem {
    /// A button for the action with this object id.
    Action(u64),
    /// A visual separator line.
    Separator,
    /// The custom widget with this object id.
    Widget(u64),
}

impl ToolBarItem {
    /// Check if this item is an action.
    pub fn is_action(&self) -> (r: bool)
        ensures
            r == (*self is Action),
    {
        match self {
            ToolBarItem::Action(_) => true,
            _ => false,
        }
    }

    /// Check if this item is a separator.
    pub fn is_separator(&self) -> (r: bool)
        ensures
            r == (*self is Separator),
    {
        match self {
            ToolBarItem::Separator => true,
            _ => false,
        }
    }

    /// Check if this item is a custom widget.
    pub fn is_widget(&self) -> (r: bool)
        ensures
            r == (*self is Widget),
    {
        match self {
            ToolBarItem::Widget(_) => true,
            _ => false,
        }
    }

    /// The action's object id, if this is an action item.
    pub fn action(&self) -> (r: Option<u64>)
        ensures
            r == (match *self {
                ToolBarItem::Action(id) => Some(id),
                _ => None,
            }),
    {
        match self {
            ToolBarItem::Action(id) => Some(*id),
            _ => None,
        }
    }

    /// The widget's object id, if this is a widget item.
    pub fn widget_id(&self) -> (r: Option<u64>)
        ensures
            r == (match *self {
                ToolBarItem::Widget(id) => Some(id),
                _ => None,
            }),
    {
        match self {
            ToolBarItem::Widget(id) => Some(*id),
            _ => None,
        }
    }
}

/// What the tool bar holds apart from its title.
pub struct ToolBar {
    title: String,
    items: Vec<ToolBarItem>,
    orientation: Orientation,
    allowed_areas: ToolBarAreas,
    features: ToolBarFeatures,
    floating: bool,
    button_style_override: Option<ToolButtonStyle>,
}

/// The index at which an insertion lands: the requested one, or the end.
pub open spec fn clamp_index(index: int, len: int) -> int {
    if index < len {
        index
    } else {
        len
    }
}

impl ToolBar {
    pub closed spec fn spec_title(&self) -> Seq<char> {
        self.title@
    }

    pub closed spec fn spec_items(&self) -> Seq<ToolBarItem> {
        self.items@
    }

    pub closed spec fn spec_orientation(&self) -> Orientation {
        self.orientation
    }

    pub closed spec fn spec_allowed_areas(&self) -> Set<ToolBarArea> {
        self.allowed_areas@
    }

    pub closed spec fn spec_features(&self) -> (bool, bool) {
        self.features@
    }

    pub closed spec fn spec_floating(&self) -> bool {
        self.floating
    }

    /// The button style set on this tool bar, if any.
    pub closed spec fn spec_button_style_override(&self) -> Option<ToolButtonStyle> {
        self.button_style_override
    }

    pub closed spec fn spec_button_style(&self) -> ToolButtonStyle {
        match self.button_style_override {
            Some(s) => s,
            None => ToolButtonStyle::IconOnly,
        }
    }

    /// Title, orientation, docking areas, features, floating state and button style agree
    /// with `other`.
    pub open spec fn same_settings(&self, other: &Self) -> bool {
        &&& self.spec_title() == other.spec_title()
        &&& self.spec_orientation() == other.spec_orientation()
        &&& self.spec_allowed_areas() == other.spec_allowed_areas()
        &&& self.spec_features() == other.spec_features()
        &&& self.spec_floating() == other.spec_floating()
        &&& self.spec_button_style_override() == other.spec_button_style_override()
    }

    /// Create a new, empty, horizontal toolbar with the given title; it may dock
    /// in every area, and is movable and floatable.
    pub fn new(title: &str) -> (r: Self)
        ensures
            r.spec_title() == title@,
            r.spec_items() == Seq::<ToolBarItem>::empty(),
            r.spec_orientation() == Orientation::Horizontal,
            r.spec_allowed_areas() == all_areas().to_set(),
            r.spec_features() == (true, true),
            !r.spec_floating(),
            r.spec_button_style() == ToolButtonStyle::IconOnly,
            r.spec_button_style_override() is None,
    {
        ToolBar {
            title: owned(title),
            items: Vec::new(),
            orientation: Orientation::Horizontal,
            allowed_areas: ToolBarAreas::ALL(),
            features: ToolBarFeatures::all(),
            floating: false,
            button_style_override: None,
        }
    }

    /// Get the toolbar title.
    pub fn title(&self) -> (r: &str)
        ensures
            r@ == self.spec_title(),
    {
        self.title.as_str()
    }

    /// This toolbar with the given title.
    pub fn with_title(self, title: &str) -> (r: Self)
        ensures
            r.spec_title() == title@,
            r.spec_items() == self.spec_items(),
            r.spec_orientation() == self.spec_orientation(),
            r.spec_allowed_areas() == self.spec_allowed_areas(),
            r.spec_features() == self.spec_features(),
            r.spec_floating() == self.spec_floating(),
            r.spec_button_style() == self.spec_button_style(),
    {
        let mut s = self;
        s.set_title(title);
        s
    }

    /// Set the toolbar title.
    pub fn set_title(&mut self, title: &str)
        ensures
            final(self).spec_title() == title@,
            final(self).spec_items() == old(self).spec_items(),
            final(self).spec_orientation() == old(self).spec_orientation(),
            final(self).spec_allowed_areas() == old(self).spec_allowed_areas(),
            final(self).spec_features() == old(self).spec_features(),
            final(self).spec_floating() == old(self).spec_floating(),
            final(self).spec_button_style() == old(self).spec_button_style(),
    {
        self.title = owned(title);
    }

    /// Add an action button at the end.
    pub fn add_action(&mut self, action_id: u64)
        ensures
            final(self).spec_items() == old(self).spec_items().push(ToolBarItem::Action(action_id)),
            final(self).same_settings(old(self)),
    {
        self.items.push(ToolBarItem::Action(action_id));
    }

    /// Add a separator at the end.
    pub fn add_separator(&mut self)
        ensures
            final(self).spec_items() == old(self).spec_items().push(ToolBarItem::Separator),
            final(self).same_settings(old(self)),
    {
        self.items.push(ToolBarItem::Separator);
    }

    /// Add a custom widget at the end.
    pub fn add_widget(&mut self, widget_id: u64)
        ensures
            final(self).spec_items() == old(self).spec_items().push(ToolBarItem::Widget(widget_id)),
            final(self).same_settings(old(self)),
    {
        self.items.push(ToolBarItem::Widget(widget_id));
    }

    fn insert_item(&mut self, index: usize, item: ToolBarItem)
        ensures
            final(self).spec_items() == old(self).spec_items().insert(
                clamp_index(index as int, old(self).spec_items().len() as int),
                item,
            ),
            final(self).same_settings(old(self)),
    {
        let at = if index < self.items.len() {
            index
        } else {
            self.items.len()
        };
        self.items.insert(at, item);
    }

    /// Insert an action button at `index`, or at the end when `index` is past it.
    pub fn insert_action(&mut self, index: usize, action_id: u64)
        ensures
            final(self).spec_items() == old(self).spec_items().insert(
                clamp_index(index as int, old(self).spec_items().len() as int),
                ToolBarItem::Action(action_id),
            ),
            final(self).same_settings(old(self)),
    {
        self.insert_item(index, ToolBarItem::Action(action_id));
    }

    /// Insert a separator at `index`, or at the end when `index` is past it.
    pub fn insert_separator(&mut self, index: usize)
        ensures
            final(self).spec_items() == old(self).spec_items().insert(
                clamp_index(index as int, old(self).spec_items().len() as int),
                ToolBarItem::Separator,
            ),
            final(self).same_settings(old(self)),
    {
        self.insert_item(index, ToolBarItem::Separator);
    }

    /// Insert a custom widget at `index`, or at the end when `index` is past it.
    pub fn insert_widget(&mut self, index: usize, widget_id: u64)
        ensures
            final(self).spec_items() == old(self).spec_items().insert(
                clamp_index(index as int, old(self).spec_items().len() as int),
                ToolBarItem::Widget(widget_id),
            ),
            final(self).same_settings(old(self)),
    {
        self.insert_item(index, ToolBarItem::Widget(widget_id));
    }

    fn retain_other_than(&mut self, gone: ToolBarItem)
        ensures
            final(self).spec_items() == old(self).spec_items().filter(|it: ToolBarItem| it != gone),
            final(self).same_settings(old(self)),
    {
        let mut kept: Vec<ToolBarItem> = Vec::new();
        let mut i: usize = 0;
        while i < self.items.len()
            invariant
                i <= self.items.len(),
                self.items@ == old(self).items@,
                kept@ == self.items@.take(i as int).filter(|it: ToolBarItem| it != gone),
            decreases self.items.len() - i,
        {
            let it = self.items[i];
            let ghost pred = |x: ToolBarItem| x != gone;
            proof {
                reveal_with_fuel(Seq::<_>::filter, 1);
            }
            assert(self.items@.take(i as int + 1).drop_last() =~= self.items@.take(i as int));
            assert(self.items@.take(i as int + 1).last() == it);
            assert(self.items@.take(i as int + 1).filter(pred) == (if pred(it) {
                self.items@.take(i as int).filter(pred).push(it)
            } else {
                self.items@.take(i as int).filter(pred)
            }));
            if it != gone {
                kept.push(it);
            }
            i = i + 1;
        }
        assert(self.items@.take(i as int) =~= self.items@);
        self.items = kept;
    }

    /// Remove every button of the action with this id.
    pub fn remove_action(&mut self, action_id: u64)
        ensures
            final(self).spec_items() == old(self).spec_items().filter(
                |it: ToolBarItem| it != ToolBarItem::Action(action_id),
            ),
            final(self).same_settings(old(self)),
    {
        self.retain_other_than(ToolBarItem::Action(action_id));
    }

    /// Remove every occurrence of the widget with this id.
    pub fn remove_widget(&mut self, widget_id: u64)
        ensures
            final(self).spec_items() == old(self).spec_items().filter(
                |it: ToolBarItem| it != ToolBarItem::Widget(widget_id),
            ),
            final(self).same_settings(old(self)),
    {
        self.retain_other_than(ToolBarItem::Widget(widget_id));
    }

    /// Clear all items from the toolbar.
    pub fn clear(&mut self)
        ensures
            final(self).spec_items() == Seq::<ToolBarItem>::empty(),
            final(self).spec_title() == old(self).spec_title(),
            final(self).spec_features() == old(self).spec_features(),
            final(self).spec_orientation() == old(self).spec_orientation(),
    {
        self.items = Vec::new();
    }

    /// Get the items in the toolbar.
    pub fn items(&self) -> (r: &[ToolBarItem])
        ensures
            r@ == self.spec_items(),
    {
        self.items.as_slice()
    }

    /// The entries of the overflow menu when the items from `start` on do not fit: their
    /// separators, and their actions but the hidden ones (`hidden_actions`); embedded
    /// widgets cannot go in a menu.
    pub fn overflow_menu_items(&self, start: usize, hidden_actions: &[u64]) -> (r: Vec<ToolBarItem>)
        ensures
            r@ == (if start < self.spec_items().len() {
                self.spec_items().skip(start as int)
            } else {
                Seq::empty()
            }).filter(|i: ToolBarItem| in_overflow_menu(i, hidden_actions@)),
    {
        let ghost pred = |i: ToolBarItem| in_overflow_menu(i, hidden_actions@);
        let ghost all = self.items@;
        let mut out: Vec<ToolBarItem> = Vec::new();
        if start >= self.items.len() {
            proof {
                reveal(Seq::filter);
                assert(Seq::<ToolBarItem>::empty().filter(pred) =~= Seq::<ToolBarItem>::empty());
            }
            return out;
        }
        let mut k: usize = start;
        while k < self.items.len()
            invariant
                start <= k <= all.len(),
                all == self.items@,
                forall|i: ToolBarItem| #[trigger] pred(i) == in_overflow_menu(i, hidden_actions@),
                out@ == all.subrange(start as int, k as int).filter(pred),
            decreases all.len() - k,
        {
            let item = self.items[k];
            proof {
                let next = all.subrange(start as int, k + 1);
                assert(next.drop_last() =~= all.subrange(start as int, k as int));
                assert(next.last() == item);
                reveal(Seq::filter);
                assert(next.filter(pred) == (if pred(item) {
                    all.subrange(start as int, k as int).filter(pred).push(item)
                } else {
                    all.subrange(start as int, k as int).filter(pred)
                }));
            }
            let keep = match item {
                ToolBarItem::Action(id) => !contains_id(hidden_actions, id),
                ToolBarItem::Separator => true,
                ToolBarItem::Widget(_) => false,
            };
            assert(keep == pred(item));
            if keep {
                out.push(item);
            }
            k = k + 1;
        }
        assert(all.subrange(start as int, all.len() as int) =~= all.skip(start as int));
        out
    }

    /// Get the number of items in the toolbar.
    pub fn item_count(&self) -> (r: usize)
        ensures
            r == self.spec_items().len(),
    {
        self.items.len()
    }

    /// Check if the toolbar is empty.
    pub fn is_empty(&self) -> (r: bool)
        ensures
            r == (self.spec_items().len() == 0),
    {
        self.items.len() == 0
    }

    /// Get the toolbar orientation.
    pub fn orientation(&self) -> (r: Orientation)
        ensures
            r == self.spec_orientation(),
    {
        self.orientation
    }

    /// Set the toolbar orientation; returns whether it changed (the orientation
    /// changed notification is owed exactly then).
    pub fn set_orientation(&mut self, orientation: Orientation) -> (changed: bool)
        ensures
            changed == (old(self).spec_orientation() != orientation),
            final(self).spec_orientation() == orientation,
            final(self).spec_items() == old(self).spec_items(),
            final(self).spec_title() == old(self).spec_title(),
            final(self).spec_features() == old(self).spec_features(),
            final(self).spec_floating() == old(self).spec_floating(),
            final(self).spec_allowed_areas() == old(self).spec_allowed_areas(),
    {
        if self.orientation != orientation {
            self.orientation = orientation;
            true
        } else {
            false
        }
    }

    /// Set orientation using builder pattern.
    pub fn with_orientation(self, orientation: Orientation) -> (r: Self)
        ensures
            r.spec_orientation() == orientation,
            r.spec_items() == self.spec_items(),
            r.spec_title() == self.spec_title(),
    {
        let mut s = self;
        s.set_orientation(orientation);
        s
    }

    /// Get the tool button style (icon only unless set).
    pub fn tool_button_style(&self) -> (r: ToolButtonStyle)
        ensures
            r == self.spec_button_style(),
    {
        match self.button_style_override {
            Some(s) => s,
            None => ToolButtonStyle::IconOnly,
        }
    }

    /// Set the tool button style; returns whether the notification is owed
    /// (whenever the style was not already set to this value).
    pub fn set_tool_button_style(&mut self, style: ToolButtonStyle) -> (changed: bool)
        ensures
            changed == (old(self).spec_button_style_override() != Some(style)),
            final(self).spec_button_style() == style,
            final(self).spec_items() == old(self).spec_items(),
            final(self).spec_title() == old(self).spec_title(),
            final(self).spec_orientation() == old(self).spec_orientation(),
            final(self).spec_allowed_areas() == old(self).spec_allowed_areas(),
            final(self).spec_features() == old(self).spec_features(),
            final(self).spec_floating() == old(self).spec_floating(),
    {
        let same = match self.button_style_override {
            Some(s) => s == style,
            None => false,
        };
        if !same {
            self.button_style_override = Some(style);
        }
        !same
    }

    /// Set button style using builder pattern.
    pub fn with_tool_button_style(self, style: ToolButtonStyle) -> (r: Self)
        ensures
            r.spec_button_style() == style,
            r.spec_items() == self.spec_items(),
            r.spec_title() == self.spec_title(),
    {
        let mut s = self;
        s.button_style_override = Some(style);
        s
    }

    /// Get the allowed toolbar areas.
    pub fn allowed_areas(&self) -> (r: ToolBarAreas)
        ensures
            r@ == self.spec_allowed_areas(),
    {
        self.allowed_areas
    }

    /// Set the allowed toolbar areas; returns whether they changed.
    pub fn set_allowed_areas(&mut self, areas: ToolBarAreas) -> (changed: bool)
        ensures
            changed == (old(self).spec_allowed_areas() != areas@),
            final(self).spec_allowed_areas() == areas@,
            final(self).spec_items() == old(self).spec_items(),
            final(self).spec_title() == old(self).spec_title(),
            final(self).spec_orientation() == old(self).spec_orientation(),
            final(self).spec_features() == old(self).spec_features(),
            final(self).spec_floating() == old(self).spec_floating(),
            final(self).spec_button_style_override() == old(self).spec_button_style_override(),
    {
        let same = self.allowed_areas.contains_areas(areas) && areas.contains_areas(
            self.allowed_areas,
        );
        proof {
            if same {
                assert(self.allowed_areas@ =~= areas@);
            }
        }
        self.allowed_areas = areas;
        !same
    }

    /// Set allowed areas using builder pattern.
    pub fn with_allowed_areas(self, areas: ToolBarAreas) -> (r: Self)
        ensures
            r.spec_allowed_areas() == areas@,
            r.spec_items() == self.spec_items(),
            r.spec_title() == self.spec_title(),
            r.spec_features() == self.spec_features(),
    {
        let mut s = self;
        s.allowed_areas = areas;
        s
    }

    /// Check if a specific area is allowed.
    pub fn is_area_allowed(&self, area: ToolBarArea) -> (r: bool)
        ensures
            r == self.spec_allowed_areas().contains(area),
    {
        self.allowed_areas.contains(area)
    }

    /// Get the enabled features.
    pub fn features(&self) -> (r: ToolBarFeatures)
        ensures
            r@ == self.spec_features(),
    {
        self.features
    }

    /// Set the enabled features. Returns the movability to announce, when it changed.
    pub fn set_features(&mut self, features: ToolBarFeatures) -> (movable_changed: Option<bool>)
        ensures
            final(self).spec_features() == features@,
            movable_changed == (if old(self).spec_features().0 != features@.0 {
                Some(features@.0)
            } else {
                None
            }),
            final(self).spec_items() == old(self).spec_items(),
            final(self).spec_title() == old(self).spec_title(),
            final(self).spec_floating() == old(self).spec_floating(),
            final(self).spec_orientation() == old(self).spec_orientation(),
            final(self).spec_allowed_areas() == old(self).spec_allowed_areas(),
    {
        if !self.features.same_as(&features) {
            let was_movable = self.features.is_movable();
            self.features = features;
            let now_movable = features.is_movable();
            if was_movable != now_movable {
                return Some(now_movable);
            }
        }
        None
    }

    /// Set features using builder pattern.
    pub fn with_features(self, features: ToolBarFeatures) -> (r: Self)
        ensures
            r.spec_features() == features@,
            r.spec_items() == self.spec_items(),
            r.spec_title() == self.spec_title(),
    {
        let mut s = self;
        s.features = features;
        s
    }

    /// Check if the toolbar is movable.
    pub fn is_movable(&self) -> (r: bool)
        ensures
            r == self.spec_features().0,
    {
        self.features.is_movable()
    }

    /// Set whether the toolbar is movable; returns the movability to announce, when it changed.
    pub fn set_movable(&mut self, movable: bool) -> (movable_changed: Option<bool>)
        ensures
            final(self).spec_features() == (movable, old(self).spec_features().1),
            movable_changed == (if old(self).spec_features().0 != movable {
                Some(movable)
            } else {
                None
            }),
            final(self).spec_items() == old(self).spec_items(),
            final(self).spec_title() == old(self).spec_title(),
            final(self).spec_floating() == old(self).spec_floating(),
    {
        let f = self.features.with_movable(movable);
        self.set_features(f)
    }

    /// Check if the toolbar is floatable.
    pub fn is_floatable(&self) -> (r: bool)
        ensures
            r == self.spec_features().1,
    {
        self.features.is_floatable()
    }

    /// Set whether the toolbar is floatable; returns the movability to announce, when it changed
    /// (never, since movability is kept).
    pub fn set_floatable(&mut self, floatable: bool) -> (movable_changed: Option<bool>)
        ensures
            final(self).spec_features() == (old(self).spec_features().0, floatable),
            movable_changed is None,
            final(self).spec_items() == old(self).spec_items(),
            final(self).spec_title() == old(self).spec_title(),
            final(self).spec_floating() == old(self).spec_floating(),
    {
        let f = self.features.with_floatable(floatable);
        self.set_features(f)
    }

    /// Check if the toolbar is floating.
    pub fn is_floating(&self) -> (r: bool)
        ensures
            r == self.spec_floating(),
    {
        self.floating
    }

    /// Set the floating state. A toolbar that is not floatable never starts floating.
    /// Returns whether the state changed (the top-level notification is owed exactly then).
    pub fn set_floating(&mut self, floating: bool) -> (changed: bool)
        ensures
            final(self).spec_floating() == (if floating && !old(self).spec_features().1 {
                old(self).spec_floating()
            } else {
                floating
            }),
            changed == (final(self).spec_floating() != old(self).spec_floating()),
            final(self).spec_items() == old(self).spec_items(),
            final(self).spec_title() == old(self).spec_title(),
            final(self).spec_orientation() == old(self).spec_orientation(),
            final(self).spec_allowed_areas() == old(self).spec_allowed_areas(),
            final(self).spec_features() == old(self).spec_features(),
            final(self).spec_button_style_override() == old(self).spec_button_style_override(),
    {
        if !self.features.is_floatable() && floating {
            return false;
        }
        if self.floating != floating {
            self.floating = floating;
            true
        } else {
            false
        }
    }
}

} // verus!
