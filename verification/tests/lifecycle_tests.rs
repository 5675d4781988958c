use nethint_bpf::agent::Direction;
use nethint_bpf::command::{Exit, Failure, Output};
use nethint_bpf::hook::{AttachError, Release};
use nethint_bpf::lifecycle::{Action, Lifecycle, Stage};

fn ok() -> Output {
    Output { status: Exit::Code(0), stdout: Vec::new() }
}

fn failed(code: i32) -> Output {
    Output { status: Exit::Code(code), stdout: Vec::new() }
}

fn run_args(action: Result<Action, AttachError>) -> Vec<String> {
    match action {
        Ok(Action::Run(args)) => args,
        other => panic!("{:?}", other),
    }
}

fn open_path(action: Result<Action, AttachError>) -> String {
    match action {
        Ok(Action::Open(path)) => path,
        other => panic!("{:?}", other),
    }
}

fn text(steps: &[Release]) -> Vec<String> {
    steps
        .iter()
        .map(|step| match step {
            Release::Detach(args) => format!("tc {}", args.join(" ")),
            Release::Unpin(path) => format!("unpin {}", path),
        })
        .collect()
}

#[test]
fn attaching_runs_through_its_stages() {
    let mut hooks = Lifecycle::new("rdma0", "p.elf");
    assert_eq!(hooks.stage(), Stage::Qdisc);
    assert_eq!(hooks.held(), 0);
    assert_eq!(run_args(hooks.start()).join(" "), "qdisc add dev rdma0 clsact");
    assert_eq!(hooks.stage(), Stage::Qdisc);
    assert_eq!(
        run_args(hooks.ran(ok())).join(" "),
        "filter add dev rdma0 ingress prio 49152 bpf direct-action object-file p.elf section tc_action/nethint_count_ingress"
    );
    assert_eq!(hooks.stage(), Stage::Filter(Direction::Ingress));
    assert_eq!(hooks.held(), 1);
    assert_eq!(open_path(hooks.ran(ok())), "/sys/fs/bpf/tc/globals/flow_map_ingress");
    assert_eq!(hooks.stage(), Stage::Table(Direction::Ingress));
    assert_eq!(hooks.held(), 2);
    assert_eq!(
        run_args(hooks.opened(true)).join(" "),
        "filter add dev rdma0 egress prio 49152 bpf direct-action object-file p.elf section tc_action/nethint_count_egress"
    );
    assert_eq!(hooks.stage(), Stage::Filter(Direction::Egress));
    assert_eq!(hooks.held(), 3);
    assert_eq!(open_path(hooks.ran(ok())), "/sys/fs/bpf/tc/globals/flow_map_egress");
    assert_eq!(hooks.stage(), Stage::Table(Direction::Egress));
    assert!(matches!(hooks.opened(true), Ok(Action::Nothing)));
    assert_eq!(hooks.stage(), Stage::Attached);
    assert_eq!(hooks.held(), 5);

    let steps = hooks.shutdown();
    assert_eq!(
        text(&steps),
        vec![
            "unpin /sys/fs/bpf/tc/globals/flow_map_egress",
            "tc filter del dev rdma0 egress prio 49152 bpf direct-action object-file p.elf section tc_action/nethint_count_egress",
            "unpin /sys/fs/bpf/tc/globals/flow_map_ingress",
            "tc filter del dev rdma0 ingress prio 49152 bpf direct-action object-file p.elf section tc_action/nethint_count_ingress",
            "tc qdisc del dev rdma0 clsact",
        ]
    );
    assert_eq!(hooks.stage(), Stage::Closed);
    assert_eq!(hooks.held(), 0);
}

#[test]
fn shutdown_twice_releases_once() {
    let mut hooks = Lifecycle::new("eth0", "p.elf");
    hooks.start().unwrap();
    hooks.ran(ok()).unwrap();
    hooks.ran(ok()).unwrap();
    hooks.opened(true).unwrap();
    assert_eq!(hooks.shutdown().len(), 3);
    assert!(hooks.shutdown().is_empty());
    assert!(hooks.shutdown().is_empty());
    assert_eq!(hooks.stage(), Stage::Closed);
}

#[test]
fn hook_that_was_there_before_is_not_removed() {
    let mut hooks = Lifecycle::new("eth0", "p.elf");
    hooks.start().unwrap();
    // The classifier hook exists: adding it fails, and attaching goes on.
    let next = run_args(hooks.ran(failed(2)));
    assert_eq!(next[..5].join(" "), "filter add dev eth0 ingress");
    assert_eq!(hooks.held(), 1);
    hooks.ran(ok()).unwrap();
    hooks.opened(true).unwrap();
    hooks.ran(ok()).unwrap();
    hooks.opened(true).unwrap();
    assert_eq!(hooks.stage(), Stage::Attached);
    let steps = text(&hooks.shutdown());
    assert_eq!(steps.len(), 4);
    assert!(steps.iter().all(|s| !s.contains("qdisc")));
    assert!(steps[0].starts_with("unpin "));
    assert!(steps[1].starts_with("tc filter del dev eth0 egress"));
    assert!(steps[2].starts_with("unpin "));
    assert!(steps[3].starts_with("tc filter del dev eth0 ingress"));
}

#[test]
fn failed_program_closes_and_leaves_nothing_attached() {
    let mut hooks = Lifecycle::new("eth0", "p.elf");
    hooks.start().unwrap();
    hooks.ran(ok()).unwrap();
    hooks.ran(ok()).unwrap();
    hooks.opened(true).unwrap();
    match hooks.ran(failed(1)) {
        Err(AttachError::Failed(e)) => {
            assert_eq!(e.failure, Failure::Exited(1));
            assert_eq!(
                e.message(),
                "Exited with code: 1, cmd: tc filter add dev eth0 egress prio 49152 bpf direct-action object-file p.elf section tc_action/nethint_count_egress"
            );
        }
        other => panic!("{:?}", other),
    }
    assert_eq!(hooks.stage(), Stage::Closed);
    assert_eq!(hooks.held(), 3);
    assert_eq!(
        text(&hooks.shutdown()),
        vec![
            "unpin /sys/fs/bpf/tc/globals/flow_map_ingress",
            "tc filter del dev eth0 ingress prio 49152 bpf direct-action object-file p.elf section tc_action/nethint_count_ingress",
            "tc qdisc del dev eth0 clsact",
        ]
    );
    assert_eq!(hooks.held(), 0);
}

#[test]
fn table_that_does_not_open_closes() {
    let mut hooks = Lifecycle::new("eth0", "p.elf");
    hooks.start().unwrap();
    hooks.ran(ok()).unwrap();
    hooks.ran(ok()).unwrap();
    assert!(matches!(hooks.opened(false), Err(AttachError::TableUnavailable)));
    assert_eq!(hooks.stage(), Stage::Closed);
    let steps = text(&hooks.shutdown());
    assert_eq!(steps.len(), 2);
    assert!(steps[0].starts_with("tc filter del dev eth0 ingress"));
    assert_eq!(steps[1], "tc qdisc del dev eth0 clsact");
}

#[test]
fn interface_with_an_open_quote_is_malformed() {
    let mut hooks = Lifecycle::new("eth'0", "p.elf");
    assert!(matches!(hooks.start(), Err(AttachError::Malformed)));
    assert_eq!(hooks.stage(), Stage::Closed);
    assert!(hooks.shutdown().is_empty());
}

#[test]
fn reports_out_of_turn_change_nothing() {
    let mut hooks = Lifecycle::new("eth0", "p.elf");
    assert!(matches!(hooks.opened(true), Ok(Action::Nothing)));
    assert_eq!(hooks.stage(), Stage::Qdisc);
    hooks.start().unwrap();
    hooks.ran(ok()).unwrap();
    assert!(matches!(hooks.start(), Ok(Action::Nothing)));
    assert!(matches!(hooks.opened(false), Ok(Action::Nothing)));
    assert_eq!(hooks.stage(), Stage::Filter(Direction::Ingress));
    hooks.ran(ok()).unwrap();
    assert!(matches!(hooks.ran(ok()), Ok(Action::Nothing)));
    assert_eq!(hooks.stage(), Stage::Table(Direction::Ingress));
    hooks.shutdown();
    assert!(matches!(hooks.ran(ok()), Ok(Action::Nothing)));
    assert!(matches!(hooks.opened(true), Ok(Action::Nothing)));
    assert!(matches!(hooks.start(), Ok(Action::Nothing)));
    assert_eq!(hooks.held(), 0);
}
