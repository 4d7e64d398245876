//! Description of one counter to observe.

use vstd::prelude::*;

verus! {

/// Optional qualifiers of a counter path: the machine the counter lives on
/// and the instance triple (parent instance, instance name, instance index).
/// An absent field is `None`, which the path builder treats differently from
/// an empty string.
#[derive(Debug)]
pub struct PdhCounterPathElementOptions {
    pub machine_name: Option<String>,
    pub parent_instance: Option<String>,
    pub instance_index: Option<u32>,
    pub instance_name: Option<String>,
}

/// Immutable description of one counter: the performance object, the counter
/// name within it, and the optional qualifiers.
#[derive(Debug)]
pub struct PdhCounterPathElement {
    pub object_name: String,
    pub counter_name: String,
    pub options: PdhCounterPathElementOptions,
}

impl Clone for PdhCounterPathElementOptions {
    fn clone(&self) -> (r: Self)
        ensures
            r == *self,
    {
        PdhCounterPathElementOptions {
            machine_name: self.machine_name.clone(),
            parent_instance: self.parent_instance.clone(),
            instance_index: self.instance_index.clone(),
            instance_name: self.instance_name.clone(),
        }
    }
}

impl Clone for PdhCounterPathElement {
    fn clone(&self) -> (r: Self)
        ensures
            r == *self,
    {
        PdhCounterPathElement {
            object_name: self.object_name.clone(),
            counter_name: self.counter_name.clone(),
            options: self.options.clone(),
        }
    }
}

impl Default for PdhCounterPathElementOptions {
    /// All qualifiers absent.
    fn default() -> (r: Self)
        ensures
            r.machine_name is None,
            r.parent_instance is None,
            r.instance_index is None,
            r.instance_name is None,
    {
        PdhCounterPathElementOptions {
            machine_name: None,
            parent_instance: None,
            instance_index: None,
            instance_name: None,
        }
    }
}

impl PdhCounterPathElement {
    pub fn new(o_name: String, c_name: String, ops: PdhCounterPathElementOptions) -> (r:
        PdhCounterPathElement)
        ensures
            r.object_name == o_name,
            r.counter_name == c_name,
            r.options == ops,
    {
        PdhCounterPathElement { object_name: o_name, counter_name: c_name, options: ops }
    }

    /// The short display form `Object\Counter`.
    pub fn to_string(&self) -> (r: String)
        ensures
            r@ == self.object_name@ + "\\"@ + self.counter_name@,
    {
        let mut s = self.object_name.clone();
        s.append("\\");
        s.append(self.counter_name.as_str());
        s
    }
}

} // verus!
