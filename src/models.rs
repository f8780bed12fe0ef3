//! The session's data: modes, resource kinds, resource snapshots as plain
//! values, events coming back from background work, the commands the core
//! asks its host to carry out, and destructive actions awaiting confirmation.
use crate::text::{decimal, push_decimal, push_str};
use vstd::prelude::*;

verus! {

/// What each keystroke means: exactly one mode is active.
#[derive(Debug, Clone, Copy, PartialEq, Eq, Structural)]
pub enum AppMode {
    List,
    FilterInput,
    LogView,
    LogSearchInput,
    SecretDecode,
    ContextSelect,
    NamespaceSelect,
    ScaleInput,
    Confirm,
    ShellView,
    DescribeView,
    StatusFilter,
}

/// The resource kind shown by the active tab.
#[derive(Debug, Clone, Copy, PartialEq, Eq, Structural)]
pub enum ResourceType {
    Pod,
    Deployment,
    Secret,
}

/// The projected fields of a pod snapshot.
#[derive(Debug, Clone, PartialEq, Eq)]
pub struct PodInfo {
    pub name: String,
    pub phase: Option<String>,
    pub ready_containers: u32,
    pub total_containers: u32,
    pub restarts: u32,
    pub node: Option<String>,
    pub created: Option<i64>,
}

/// The projected fields of a deployment snapshot.
#[derive(Debug, Clone, PartialEq, Eq)]
pub struct DeploymentInfo {
    pub name: String,
    pub replicas: i32,
    pub ready_replicas: i32,
    pub updated_replicas: i32,
    pub available_replicas: i32,
    pub created: Option<i64>,
}

/// The projected fields of a secret snapshot; `data` holds raw values.
#[derive(Debug, Clone, PartialEq, Eq)]
pub struct SecretInfo {
    pub name: String,
    pub secret_type: Option<String>,
    pub data: Option<Vec<(String, Vec<u8>)>>,
    pub created: Option<i64>,
}

/// One item of the active resource collection: replaced wholesale whenever
/// the watch cache changes, never edited in place.
#[derive(Debug, Clone, PartialEq, Eq)]
pub enum KubeResource {
    Pod(PodInfo),
    Deployment(DeploymentInfo),
    Secret(SecretInfo),
}

impl KubeResource {
    pub open spec fn spec_name(&self) -> Seq<char> {
        match self {
            KubeResource::Pod(p) => p.name@,
            KubeResource::Deployment(d) => d.name@,
            KubeResource::Secret(s) => s.name@,
        }
    }

    /// The resource's name.
    pub fn name(&self) -> (r: &str)
        ensures
            r@ == self.spec_name(),
    {
        match self {
            KubeResource::Pod(p) => p.name.as_str(),
            KubeResource::Deployment(d) => d.name.as_str(),
            KubeResource::Secret(s) => s.name.as_str(),
        }
    }
}

/// A result or notification delivered to the session's single writer.
#[derive(Debug, Clone, PartialEq, Eq)]
pub enum KubeResourceEvent {
    Refresh,
    InitialListDone,
    Error(String),
    Success(String),
    WatcherForbidden(String),
    Log(String),
    LogHistory(u64, Vec<String>),
    ShellOutput(Vec<u8>),
    ShellExited,
    DescribeReady(Vec<String>),
    NamespacesLoaded(Vec<String>),
}

/// Work the core hands to its host: each is carried out concurrently and
/// reports back through a `KubeResourceEvent`.
#[derive(Debug, Clone, PartialEq, Eq)]
pub enum Command {
    /// Cancel the live log follow and any history fetch.
    AbortLogTasks,
    /// Follow the pod's log from the last `tail_lines` lines.
    StreamLogs { pod: String, namespace: String, tail_lines: i64 },
    /// Fetch the last `tail_lines` lines once; the answer carries `generation`.
    FetchLogHistory { pod: String, namespace: String, tail_lines: i64, generation: u64 },
    LoadNamespaces { context: String, fallback_namespace: String },
    SaveState,
    Describe { kind: String, name: String, namespace: String, context: String },
    DeletePod { name: String, namespace: String },
    DeleteDeployment { name: String, namespace: String },
    RestartDeployment { name: String, namespace: String },
    ScaleDeployment { name: String, namespace: String, replicas: u32 },
    StartShell { pod: String, namespace: String, context: String },
    StartEdit { kind: String, name: String, namespace: String, context: String },
    ShellInput(Vec<u8>),
    /// Drop the live watch subscription.
    StopWatch,
    /// Subscribe to `kind` in `namespace` under `context`.
    StartWatch { kind: ResourceType, namespace: String, context: String },
    CloseShell,
    CopyToClipboard(String),
}

/// The request for one history fetch.
pub open spec fn fetch_command(pod: String, namespace: String, tail_lines: i64, generation: u64) -> Command {
    Command::FetchLogHistory { pod, namespace, tail_lines, generation }
}

/// A destructive action waiting for confirmation.
#[derive(Debug, Clone, PartialEq, Eq)]
pub enum PendingAction {
    DeleteResource { count: usize, kind: &'static str, names: Vec<String> },
    RestartDeployment { name: String },
    ScaleDeployment { name: String, replicas: u32 },
}

/// The names separated by ", ".
pub open spec fn joined(names: Seq<String>) -> Seq<char>
    decreases names.len(),
{
    if names.len() == 0 {
        Seq::empty()
    } else if names.len() == 1 {
        names[0]@
    } else {
        joined(names.drop_last()) + ", "@ + names.last()@
    }
}

impl PendingAction {
    /// The question shown while the action waits for confirmation.
    pub open spec fn spec_message(&self) -> Seq<char> {
        match self {
            PendingAction::DeleteResource { count, kind, names } => {
                if *count == 1 {
                    "Delete "@ + kind@ + " '"@ + (if names.len() > 0 {
                        names[0]@
                    } else {
                        "?"@
                    }) + "'?"@
                } else {
                    "Delete "@ + decimal(*count as nat) + " "@ + kind@ + "?\n"@ + joined(names@)
                }
            },
            PendingAction::RestartDeployment { name } => "Rollout restart '"@ + name@ + "'?"@,
            PendingAction::ScaleDeployment { name, replicas } => {
                if *replicas == 0 {
                    "Scale '"@ + name@ + "' to 0 replicas?\nThis will stop all pods."@
                } else {
                    "Scale '"@ + name@ + "' to "@ + decimal(*replicas as nat) + " replicas?"@
                }
            },
        }
    }

    pub fn message(&self) -> (r: String)
        ensures
            r@ == self.spec_message(),
    {
        let mut s = String::new();
        match self {
            PendingAction::DeleteResource { count, kind, names } => {
                if *count == 1 {
                    push_str(&mut s, "Delete ");
                    push_str(&mut s, kind);
                    push_str(&mut s, " '");
                    if names.len() > 0 {
                        push_str(&mut s, names[0].as_str());
                    } else {
                        push_str(&mut s, "?");
                    }
                    push_str(&mut s, "'?");
                } else {
                    push_str(&mut s, "Delete ");
                    push_decimal(&mut s, *count as u64);
                    push_str(&mut s, " ");
                    push_str(&mut s, kind);
                    push_str(&mut s, "?\n");
                    push_joined(&mut s, names);
                }
            },
            PendingAction::RestartDeployment { name } => {
                push_str(&mut s, "Rollout restart '");
                push_str(&mut s, name.as_str());
                push_str(&mut s, "'?");
            },
            PendingAction::ScaleDeployment { name, replicas } => {
                push_str(&mut s, "Scale '");
                push_str(&mut s, name.as_str());
                if *replicas == 0 {
                    push_str(&mut s, "' to 0 replicas?\nThis will stop all pods.");
                } else {
                    push_str(&mut s, "' to ");
                    push_decimal(&mut s, *replicas as u64);
                    push_str(&mut s, " replicas?");
                }
            },
        }
        assert(s@ =~= self.spec_message());
        s
    }
}

/// Appends the names separated by ", ".
fn push_joined(s: &mut String, names: &Vec<String>)
    ensures
        final(s)@ == old(s)@ + joined(names@),
{
    let mut i: usize = 0;
    while i < names.len()
        invariant
            i <= names@.len(),
            s@ == old(s)@ + joined(names@.subrange(0, i as int)),
        decreases names@.len() - i,
    {
        proof {
            assert(names@.subrange(0, i + 1).drop_last() =~= names@.subrange(0, i as int));
        }
        if i > 0 {
            push_str(s, ", ");
        }
        push_str(s, names[i].as_str());
        proof {
            if i == 0 {
                assert(joined(names@.subrange(0, 0)) =~= Seq::<char>::empty());
            }
        }
        i = i + 1;
    }
    assert(names@.subrange(0, names@.len() as int) =~= names@);
}

} // verus!
