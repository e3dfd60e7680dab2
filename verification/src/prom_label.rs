//! The label values of the collector's enums.

use crate::types::{ControllerVariant, TargetVariant};
use vstd::prelude::*;

verus! {

/// A kind whose name stands in a Prometheus label.
pub trait LabelProm {
    spec fn spec_prom_label(&self) -> Seq<char>;

    fn to_prom_label(&self) -> (r: &'static str)
        ensures
            r@ == self.spec_prom_label(),
    ;
}

impl LabelProm for TargetVariant {
    open spec fn spec_prom_label(&self) -> Seq<char> {
        match self {
            TargetVariant::Ost => "ost"@,
            TargetVariant::Mgt => "mgt"@,
            TargetVariant::Mdt => "mdt"@,
        }
    }

    fn to_prom_label(&self) -> (r: &'static str) {
        match self {
            TargetVariant::Ost => "ost",
            TargetVariant::Mgt => "mgt",
            TargetVariant::Mdt => "mdt",
        }
    }
}

impl LabelProm for ControllerVariant {
    open spec fn spec_prom_label(&self) -> Seq<char> {
        match self {
            ControllerVariant::Osc => "osc"@,
            ControllerVariant::Mdc => "mdc"@,
        }
    }

    fn to_prom_label(&self) -> (r: &'static str) {
        match self {
            ControllerVariant::Osc => "osc",
            ControllerVariant::Mdc => "mdc",
        }
    }
}

} // verus!
