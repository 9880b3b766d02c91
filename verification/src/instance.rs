//! Instance records and instance-type metadata. Records are replaced
//! wholesale on every refresh and never mutated in place; type metadata is
//! loaded once at startup and immutable thereafter.

use vstd::prelude::*;

verus! {

/// One compute instance as the dashboard sees it. The launch time is kept
/// as seconds since the epoch.
#[derive(Debug)]
pub struct InstanceInfo {
    pub id: String,
    pub name: Option<String>,
    pub instance_type: String,
    pub state: String,
    pub architecture: Option<String>,
    pub availability_zone: Option<String>,
    pub public_ip: Option<String>,
    pub launch_time: Option<i64>,
}

/// Mathematical image of an [`InstanceInfo`].
pub ghost struct InstanceView {
    pub id: Seq<char>,
    pub name: Option<Seq<char>>,
    pub instance_type: Seq<char>,
    pub state: Seq<char>,
    pub architecture: Option<Seq<char>>,
    pub availability_zone: Option<Seq<char>>,
    pub public_ip: Option<Seq<char>>,
    pub launch_time: Option<i64>,
}

pub open spec fn opt_view(s: Option<String>) -> Option<Seq<char>> {
    match s {
        Some(v) => Some(v@),
        None => None,
    }
}

impl View for InstanceInfo {
    type V = InstanceView;

    open spec fn view(&self) -> InstanceView {
        InstanceView {
            id: self.id@,
            name: opt_view(self.name),
            instance_type: self.instance_type@,
            state: self.state@,
            architecture: opt_view(self.architecture),
            availability_zone: opt_view(self.availability_zone),
            public_ip: opt_view(self.public_ip),
            launch_time: self.launch_time,
        }
    }
}

impl DeepView for InstanceInfo {
    type V = InstanceView;

    open spec fn deep_view(&self) -> InstanceView {
        self.view()
    }
}

fn clone_opt_string(s: &Option<String>) -> (r: Option<String>)
    ensures
        r == *s,
{
    match s {
        Some(v) => Some(v.clone()),
        None => None,
    }
}

impl Clone for InstanceInfo {
    fn clone(&self) -> (r: Self)
        ensures
            r == *self,
    {
        InstanceInfo {
            id: self.id.clone(),
            name: clone_opt_string(&self.name),
            instance_type: self.instance_type.clone(),
            state: self.state.clone(),
            architecture: clone_opt_string(&self.architecture),
            availability_zone: clone_opt_string(&self.availability_zone),
            public_ip: clone_opt_string(&self.public_ip),
            launch_time: self.launch_time,
        }
    }
}

/// One instance type's metadata: its name, the architectures it supports,
/// and optional size figures for display.
#[derive(Debug)]
pub struct InstanceTypeInfo {
    pub name: String,
    pub architectures: Vec<String>,
    pub vcpu: Option<i32>,
    pub memory_mib: Option<i64>,
}

/// Mathematical image of an [`InstanceTypeInfo`].
pub ghost struct InstanceTypeView {
    pub name: Seq<char>,
    pub architectures: Seq<Seq<char>>,
    pub vcpu: Option<i32>,
    pub memory_mib: Option<i64>,
}

impl View for InstanceTypeInfo {
    type V = InstanceTypeView;

    open spec fn view(&self) -> InstanceTypeView {
        InstanceTypeView {
            name: self.name@,
            architectures: self.architectures.deep_view(),
            vcpu: self.vcpu,
            memory_mib: self.memory_mib,
        }
    }
}

impl DeepView for InstanceTypeInfo {
    type V = InstanceTypeView;

    open spec fn deep_view(&self) -> InstanceTypeView {
        self.view()
    }
}

impl Clone for InstanceTypeInfo {
    fn clone(&self) -> (r: Self)
        ensures
            r@ == self@,
    {
        let mut architectures: Vec<String> = Vec::new();
        let mut i: usize = 0;
        while i < self.architectures.len()
            invariant
                0 <= i <= self.architectures@.len(),
                architectures@ =~= self.architectures@.take(i as int),
            decreases self.architectures@.len() - i,
        {
            architectures.push(self.architectures[i].clone());
            proof {
                assert(architectures@ =~= self.architectures@.take(i as int + 1));
            }
            i += 1;
        }
        proof {
            assert(architectures@ =~= self.architectures@);
            assert(architectures.deep_view() =~= self.architectures.deep_view());
        }
        InstanceTypeInfo {
            name: self.name.clone(),
            architectures,
            vcpu: self.vcpu,
            memory_mib: self.memory_mib,
        }
    }
}

} // verus!
