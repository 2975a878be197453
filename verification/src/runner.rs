use vstd::prelude::*;
use vstd::string::*;

use crate::device::{uuid_text, DeviceId};
use crate::text::{debug_text, nat_text, push_debug_text, push_nat_text};

verus! {

/// Selects the recipe that runs; `R` is the implementation that does it, which may
/// be a trait object.
pub struct RecipeRunner<R: ?Sized>(std::sync::Arc<R>);

impl<R: ?Sized> RecipeRunner<R> {
    /// The implementation.
    pub closed spec fn spec_inner(&self) -> std::sync::Arc<R> {
        self.0
    }

    pub fn new(inner: std::sync::Arc<R>) -> (r: Self)
        ensures
            r.spec_inner() == inner,
    {
        RecipeRunner(inner)
    }

    /// The implementation, to ask it to select a recipe.
    pub fn inner(&self) -> (r: &std::sync::Arc<R>)
        ensures
            *r == self.spec_inner(),
    {
        &self.0
    }
}

impl<R: ?Sized> Clone for RecipeRunner<R> {
    fn clone(&self) -> (r: Self)
        ensures
            r.spec_inner() == self.spec_inner(),
    {
        RecipeRunner(self.0.clone())
    }
}

/// The text of a running device: its id and its type as `Debug` writes a text,
/// `(<id>, "<type>")`.
pub open spec fn running_device_text(d: (DeviceId, String)) -> Seq<char> {
    "("@ + uuid_text(d.0.0) + ", "@ + debug_text(d.1@) + ")"@
}

/// The message when device `id` of type `device_type` stopped while `remaining`
/// devices still run: the one remaining device is named, more are counted.
pub open spec fn stopped_text(id: DeviceId, device_type: Seq<char>, remaining: Seq<(DeviceId, String)>) -> Seq<
    char,
> {
    "Device "@ + uuid_text(id.0) + " of Type '"@ + device_type + "' stopped, "@ + if remaining.len() == 1 {
        "1 remaining ("@ + running_device_text(remaining[0]) + ")"@
    } else {
        nat_text(remaining.len()) + " remaining"@
    }
}

/// The message logged when device `id` of type `device_type` stopped without error
/// and `remaining` devices still run.
pub fn stopped_message(id: DeviceId, device_type: &str, remaining: &Vec<(DeviceId, String)>) -> (r: String)
    ensures
        r@ == stopped_text(id, device_type@, remaining@),
{
    let mut r = "Device ".to_owned();
    let id_text = id.to_text();
    r.append(id_text.as_str());
    r.append(" of Type '");
    r.append(device_type);
    r.append("' stopped, ");
    if remaining.len() == 1 {
        r.append("1 remaining (");
        r.append("(");
        let only = remaining[0].0.to_text();
        r.append(only.as_str());
        r.append(", ");
        push_debug_text(&mut r, remaining[0].1.as_str());
        r.append(")");
        r.append(")");
    } else {
        let n = remaining.len();
        push_nat_text(&mut r, n as u64);
        r.append(" remaining");
    }
    assert(r@ =~= stopped_text(id, device_type@, remaining@));
    r
}

} // verus!
