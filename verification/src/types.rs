//! Conversions between the layouts that stages and AeroSpace name.

use vstd::prelude::*;

use crate::aerospace::types::{layout_name_spec, AerospaceLayout};
use crate::stage::StageWorkspaceLayout;

verus! {

/// The AeroSpace layout that a stage layout stands for.
pub open spec fn aerospace_layout_of(value: StageWorkspaceLayout) -> AerospaceLayout {
    match value {
        StageWorkspaceLayout::HTiles => AerospaceLayout::HTiles,
        StageWorkspaceLayout::VTiles => AerospaceLayout::VTiles,
        StageWorkspaceLayout::HAccordion => AerospaceLayout::HAccordion,
        StageWorkspaceLayout::VAccordion => AerospaceLayout::VAccordion,
    }
}

/// The stage layout that an AeroSpace layout stands for.
pub open spec fn stage_layout_of(value: AerospaceLayout) -> StageWorkspaceLayout {
    match value {
        AerospaceLayout::HTiles => StageWorkspaceLayout::HTiles,
        AerospaceLayout::VTiles => StageWorkspaceLayout::VTiles,
        AerospaceLayout::HAccordion => StageWorkspaceLayout::HAccordion,
        AerospaceLayout::VAccordion => StageWorkspaceLayout::VAccordion,
    }
}

impl From<AerospaceLayout> for StageWorkspaceLayout {
    fn from(value: AerospaceLayout) -> (r: Self) {
        match value {
            AerospaceLayout::HTiles => StageWorkspaceLayout::HTiles,
            AerospaceLayout::VTiles => StageWorkspaceLayout::VTiles,
            AerospaceLayout::HAccordion => StageWorkspaceLayout::HAccordion,
            AerospaceLayout::VAccordion => StageWorkspaceLayout::VAccordion,
        }
    }
}

impl vstd::std_specs::convert::FromSpecImpl<AerospaceLayout> for StageWorkspaceLayout {
    open spec fn obeys_from_spec() -> bool {
        true
    }

    open spec fn from_spec(value: AerospaceLayout) -> StageWorkspaceLayout {
        stage_layout_of(value)
    }
}

impl From<StageWorkspaceLayout> for AerospaceLayout {
    fn from(value: StageWorkspaceLayout) -> (r: Self) {
        match value {
            StageWorkspaceLayout::HTiles => AerospaceLayout::HTiles,
            StageWorkspaceLayout::VTiles => AerospaceLayout::VTiles,
            StageWorkspaceLayout::HAccordion => AerospaceLayout::HAccordion,
            StageWorkspaceLayout::VAccordion => AerospaceLayout::VAccordion,
        }
    }
}

impl vstd::std_specs::convert::FromSpecImpl<StageWorkspaceLayout> for AerospaceLayout {
    open spec fn obeys_from_spec() -> bool {
        true
    }

    open spec fn from_spec(value: StageWorkspaceLayout) -> AerospaceLayout {
        aerospace_layout_of(value)
    }
}

/// Converting a layout to the other kind and back gives the layout again,
/// either way round.
pub proof fn law_layout_round_trip(stage: StageWorkspaceLayout, aerospace: AerospaceLayout)
    ensures
        stage_layout_of(aerospace_layout_of(stage)) == stage,
        aerospace_layout_of(stage_layout_of(aerospace)) == aerospace,
{
}

/// The name under which a stage file writes a layout.
pub open spec fn stage_layout_name(layout: StageWorkspaceLayout) -> Seq<char> {
    match layout {
        StageWorkspaceLayout::HTiles => "h_tiles"@,
        StageWorkspaceLayout::VTiles => "v_tiles"@,
        StageWorkspaceLayout::HAccordion => "h_accordion"@,
        StageWorkspaceLayout::VAccordion => "v_accordion"@,
    }
}

/// A layout keeps its name across the conversions: the AeroSpace layout
/// that a stage layout stands for is the one AeroSpace calls by the name the
/// stage file uses, and back; so distinct layouts stay distinct.
pub proof fn law_layout_keeps_its_name(stage: StageWorkspaceLayout, aerospace: AerospaceLayout)
    ensures
        layout_name_spec(aerospace_layout_of(stage)) == stage_layout_name(stage),
        stage_layout_name(stage_layout_of(aerospace)) == layout_name_spec(aerospace),
{
}

} // verus!
