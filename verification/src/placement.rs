use crate::pipe::{Device, Resource};
use vstd::prelude::*;

verus! {

/// How a map request on one device is satisfied.
#[derive(Clone, Copy, Debug, PartialEq, Eq, Structural)]
pub enum Strategy {
    /// The resource itself is opened to the CPU.
    Direct,
    /// A staging resource stands between the CPU and the resource.
    Shadow,
}

/// A resource can be mapped directly iff it lies in memory that the CPU
/// reaches without crossing a bus and its layout is linear.
pub open spec fn spec_can_map_directly(dev: Device, res: Resource) -> bool {
    (dev.unified_memory || res.is_staging || res.is_user) && (res.is_buffer || res.is_linear)
}

/// The strategy for a resource on a device.
pub open spec fn spec_choose_strategy(dev: Device, res: Resource) -> Strategy {
    if spec_can_map_directly(dev, res) {
        Strategy::Direct
    } else {
        Strategy::Shadow
    }
}

/// Decides whether the resource may be opened to the CPU as it is, or whether
/// a shadow has to stand in for it.
pub fn can_map_directly(dev: &Device, res: &Resource) -> (direct: bool)
    ensures
        direct == spec_can_map_directly(*dev, *res),
{
    (dev.unified_memory || res.is_staging || res.is_user) && (res.is_buffer || res.is_linear)
}

/// Chooses how map requests for `res` on `dev` are satisfied.
pub fn choose_strategy(dev: &Device, res: &Resource) -> (s: Strategy)
    ensures
        s == spec_choose_strategy(*dev, *res),
{
    if can_map_directly(dev, res) {
        Strategy::Direct
    } else {
        Strategy::Shadow
    }
}

} // verus!
