//! The kinds of programs.

use crate::error::{ParseError, ParseErrorView};
use crate::text::same;
use vstd::prelude::*;

verus! {

/// Where in the kernel a program runs.
#[derive(Debug, Copy, Clone)]
pub enum ProgramKind {
    KProbe,
    KRetProbe,
    UProbe,
    URetProbe,
    TracePoint,
    SocketFilter,
    Xdp,
    SkMsg,
    SkSkbStreamParser,
    SkSkbStreamVerdict,
    SockOps,
    SchedClassifier,
    CgroupSkbIngress,
    CgroupSkbEgress,
}

/// The name by which section names refer to a kind.
pub open spec fn kind_name(kind: ProgramKind) -> Seq<char> {
    match kind {
        ProgramKind::KProbe => "kprobe"@,
        ProgramKind::KRetProbe => "kretprobe"@,
        ProgramKind::UProbe => "uprobe"@,
        ProgramKind::URetProbe => "uretprobe"@,
        ProgramKind::Xdp => "xdp"@,
        ProgramKind::TracePoint => "trace_point"@,
        ProgramKind::SocketFilter => "socket_filter"@,
        ProgramKind::SkMsg => "sk_msg"@,
        ProgramKind::SkSkbStreamParser => "sk_skb/stream_parser"@,
        ProgramKind::SkSkbStreamVerdict => "sk_skb/stream_verdict"@,
        ProgramKind::SockOps => "sockops"@,
        ProgramKind::SchedClassifier => "classifier"@,
        ProgramKind::CgroupSkbIngress => "cgroup_skb/ingress"@,
        ProgramKind::CgroupSkbEgress => "cgroup_skb/egress"@,
    }
}

/// Whether `name` is the name of some kind.
pub open spec fn names_kind(name: Seq<char>) -> bool {
    exists|kind: ProgramKind| #[trigger] kind_name(kind) == name
}

/// The kind that goes by `name`.
pub open spec fn kind_of(name: Seq<char>) -> Result<ProgramKind, ParseErrorView> {
    if names_kind(name) {
        Ok(choose|kind: ProgramKind| #[trigger] kind_name(kind) == name)
    } else {
        Err(ParseErrorView::InvalidProgramKind { kind: name })
    }
}

/// The lengths of the names of kinds, with some of their characters where two
/// names are of one length.
pub(crate) proof fn lemma_kind_names()
    ensures
        "kprobe"@.len() == 6 && "kprobe"@[0] == 'k',
        "kretprobe"@.len() == 9 && "kretprobe"@[0] == 'k',
        "uprobe"@.len() == 6 && "uprobe"@[0] == 'u',
        "uretprobe"@.len() == 9 && "uretprobe"@[0] == 'u',
        "xdp"@.len() == 3,
        "trace_point"@.len() == 11,
        "socket_filter"@.len() == 13,
        "sk_msg"@.len() == 6 && "sk_msg"@[0] == 's',
        "sk_skb/stream_parser"@.len() == 20,
        "sk_skb/stream_verdict"@.len() == 21,
        "sockops"@.len() == 7,
        "classifier"@.len() == 10 && "classifier"@[1] == 'l',
        "cgroup_skb/ingress"@.len() == 18,
        "cgroup_skb/egress"@.len() == 17,
{
    reveal_strlit("kprobe");
    reveal_strlit("kretprobe");
    reveal_strlit("uprobe");
    reveal_strlit("uretprobe");
    reveal_strlit("xdp");
    reveal_strlit("trace_point");
    reveal_strlit("socket_filter");
    reveal_strlit("sk_msg");
    reveal_strlit("sk_skb/stream_parser");
    reveal_strlit("sk_skb/stream_verdict");
    reveal_strlit("sockops");
    reveal_strlit("classifier");
    reveal_strlit("cgroup_skb/ingress");
    reveal_strlit("cgroup_skb/egress");
}

/// Law: no two kinds go by one name.
pub proof fn law_kind_names_differ(left: ProgramKind, right: ProgramKind)
    requires
        kind_name(left) == kind_name(right),
    ensures
        left == right,
{
    lemma_kind_names();
}

/// Law: each kind is found under its own name.
pub proof fn law_kind_round_trip(kind: ProgramKind)
    ensures
        kind_of(kind_name(kind)) == Ok::<ProgramKind, ParseErrorView>(kind),
{
    let name = kind_name(kind);
    assert(names_kind(name));
    law_kind_names_differ(choose|other: ProgramKind| #[trigger] kind_name(other) == name, kind);
}

impl ProgramKind {
    /// Looks up the kind that goes by a name.
    pub fn from_str(kind: &str) -> (result: Result<ProgramKind, ParseError>)
        ensures
            match result {
                Ok(found) => kind_of(kind@) == Ok::<ProgramKind, ParseErrorView>(found),
                Err(error) => kind_of(kind@) == Err::<ProgramKind, ParseErrorView>(error@),
            },
    {
        let found = if same(kind, "kprobe") {
            ProgramKind::KProbe
        } else if same(kind, "kretprobe") {
            ProgramKind::KRetProbe
        } else if same(kind, "uprobe") {
            ProgramKind::UProbe
        } else if same(kind, "uretprobe") {
            ProgramKind::URetProbe
        } else if same(kind, "xdp") {
            ProgramKind::Xdp
        } else if same(kind, "trace_point") {
            ProgramKind::TracePoint
        } else if same(kind, "socket_filter") {
            ProgramKind::SocketFilter
        } else if same(kind, "sk_msg") {
            ProgramKind::SkMsg
        } else if same(kind, "sk_skb/stream_parser") {
            ProgramKind::SkSkbStreamParser
        } else if same(kind, "sk_skb/stream_verdict") {
            ProgramKind::SkSkbStreamVerdict
        } else if same(kind, "sockops") {
            ProgramKind::SockOps
        } else if same(kind, "classifier") {
            ProgramKind::SchedClassifier
        } else if same(kind, "cgroup_skb/ingress") {
            ProgramKind::CgroupSkbIngress
        } else if same(kind, "cgroup_skb/egress") {
            ProgramKind::CgroupSkbEgress
        } else {
            return Err(ParseError::InvalidProgramKind { kind: kind.to_owned() });
        };
        proof {
            law_kind_round_trip(found);
        }
        Ok(found)
    }
}

impl std::str::FromStr for ProgramKind {
    type Err = ParseError;

    fn from_str(kind: &str) -> (result: Result<ProgramKind, ParseError>)
        ensures
            match result {
                Ok(found) => kind_of(kind@) == Ok::<ProgramKind, ParseErrorView>(found),
                Err(error) => kind_of(kind@) == Err::<ProgramKind, ParseErrorView>(error@),
            },
    {
        ProgramKind::from_str(kind)
    }
}

} // verus!
