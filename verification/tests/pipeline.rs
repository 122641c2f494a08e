use zengit_core::commands::{
    branch_create_command, branch_delete_command, branch_list_command, checkout_command,
    checkout_files_command, clean_command, commit_command, diff_command, fetch_command,
    log_command, partition_discards, pull_command, push_command, reset_command,
    show_command, show_file_diff_command, show_files_command, show_ref_command, stage_command,
    status_command, tracking_status_command, CommandCreationFlags, ProcessSpec,
};
use zengit_core::envelope::{
    branch_envelope, counts_envelope, log_envelope, show_envelope, show_files_envelope,
    status_envelope, text_envelope, ResultEnvelope,
};
use zengit_core::executor::{
    settle, settle_and_release, ExecutionEvent, FailureKind, Outcome,
};
use zengit_core::parsers::{parse_status, ChangeCategory};
use zengit_core::registry::{OperationLabel, TaskKey, TaskRegistry};

fn args_of(spec: &ProcessSpec) -> Vec<&str> {
    spec.args.iter().map(|a| a.as_str()).collect()
}

#[test]
fn settle_maps_each_event_to_its_outcome() {
    let success = settle(ExecutionEvent::Exited {
        ok: true,
        stdout: "out".to_string(),
        stderr: "".to_string(),
    });
    match success {
        Outcome::Success { stdout } => assert_eq!(stdout, "out"),
        _ => panic!("exit status zero must settle as success"),
    }

    let failed = settle(ExecutionEvent::Exited {
        ok: false,
        stdout: "".to_string(),
        stderr: "boom".to_string(),
    });
    match failed {
        Outcome::Failure { kind, error } => {
            assert_eq!(kind, FailureKind::CommandFailed);
            assert_eq!(error, "boom");
        },
        _ => panic!("nonzero exit must settle as command failure"),
    }

    let spawn = settle(ExecutionEvent::SpawnFailed { error: "missing binary".to_string() });
    match spawn {
        Outcome::Failure { kind, error } => {
            assert_eq!(kind, FailureKind::SpawnError);
            assert_eq!(error, "missing binary");
        },
        _ => panic!("a failed spawn must settle as spawn error"),
    }

    assert!(matches!(settle(ExecutionEvent::Cancelled), Outcome::Cancelled));
}

#[test]
fn settle_and_release_frees_the_slot_exactly_once() {
    let mut registry = TaskRegistry::new();
    let k = TaskKey { operation: OperationLabel::Status, destination: "main".to_string() };
    registry.admit_task(&k);
    assert!(registry.is_running(&k));
    let outcome = settle_and_release(
        &mut registry,
        &k,
        ExecutionEvent::Exited { ok: true, stdout: "".to_string(), stderr: "".to_string() },
    );
    assert!(matches!(outcome, Outcome::Success { .. }));
    assert!(!registry.is_running(&k));
}

#[test]
fn text_envelope_covers_all_outcomes() {
    assert!(text_envelope(Outcome::Cancelled).is_none());
    match text_envelope(Outcome::Success { stdout: "raw diff".to_string() }) {
        Some(ResultEnvelope::Payload(text)) => assert_eq!(text, "raw diff"),
        _ => panic!("success must carry the raw text"),
    }
    let failure = Outcome::Failure { kind: FailureKind::CommandFailed, error: "err".to_string() };
    match text_envelope(failure) {
        Some(envelope) => {
            assert!(!envelope.success());
            match envelope {
                ResultEnvelope::ErrorText(text) => assert_eq!(text, "err"),
                ResultEnvelope::Payload(_) => panic!("failure must carry error text"),
            }
        },
        None => panic!("a failure still yields an envelope"),
    }
}

#[test]
fn status_envelope_parses_the_output() {
    let outcome = Outcome::Success { stdout: " M a.txt\n?? b.txt".to_string() };
    match status_envelope(outcome) {
        Some(ResultEnvelope::Payload(records)) => {
            assert_eq!(records.len(), 2);
            assert_eq!(records[0].category, ChangeCategory::Modified);
            assert_eq!(records[1].category, ChangeCategory::Added);
        },
        _ => panic!("success must carry parsed records"),
    }
}

#[test]
fn show_files_and_log_and_branch_and_show_envelopes_parse() {
    match show_files_envelope(Outcome::Success { stdout: "M\ta.txt".to_string() }) {
        Some(ResultEnvelope::Payload(records)) => assert_eq!(records[0].filename, "a.txt"),
        _ => panic!("show-files success must parse"),
    }
    match log_envelope(Outcome::Success { stdout: "g___h___a___s___d___r".to_string() }) {
        Some(ResultEnvelope::Payload(records)) => assert_eq!(records[0].hash, "h"),
        _ => panic!("log success must parse"),
    }
    match branch_envelope(Outcome::Success { stdout: "* main".to_string() }) {
        Some(ResultEnvelope::Payload(records)) => assert_eq!(records[0].name, "main"),
        _ => panic!("branch success must parse"),
    }
    match show_envelope(Outcome::Success { stdout: "h\na\nd\nbody".to_string() }) {
        Some(ResultEnvelope::Payload(record)) => assert_eq!(record.message, "body"),
        _ => panic!("show success must parse"),
    }
    assert!(log_envelope(Outcome::Cancelled).is_none());
}

#[test]
fn counts_envelope_reports_counters_and_parse_errors() {
    let ok = counts_envelope(Outcome::Success {
        stdout: "## main...origin/main [ahead 2, behind 1]".to_string(),
    });
    match ok {
        Some(ResultEnvelope::Payload(counts)) => {
            assert_eq!(counts.push, 2);
            assert_eq!(counts.pull, 1);
        },
        _ => panic!("well-formed counters must parse"),
    }
    let bad = counts_envelope(Outcome::Success { stdout: "ahead 99999999".to_string() });
    match bad {
        Some(ResultEnvelope::ErrorText(text)) => {
            assert_eq!(text, "failed to read ahead/behind counts")
        },
        _ => panic!("an oversized counter is a parse error"),
    }
}

#[test]
fn fixed_argument_lists_match_their_operations() {
    assert_eq!(args_of(&reset_command()), ["reset"]);
    assert_eq!(args_of(&status_command()), ["status", "-s", "-uall"]);
    assert_eq!(args_of(&diff_command("a.txt")), ["diff", "a.txt"]);
    assert_eq!(args_of(&push_command()), ["push", "-u", "origin", "HEAD"]);
    assert_eq!(args_of(&pull_command()), ["pull", "--prune"]);
    assert_eq!(args_of(&fetch_command()), ["fetch", "--prune"]);
    assert_eq!(args_of(&tracking_status_command()), ["status", "-sb"]);
    assert_eq!(args_of(&branch_list_command()), ["branch", "-a"]);
    assert_eq!(args_of(&branch_create_command("dev")), ["checkout", "-b", "dev"]);
    assert_eq!(args_of(&branch_delete_command("dev")), ["branch", "-d", "dev"]);
    assert_eq!(args_of(&checkout_command("dev")), ["checkout", "dev"]);
    assert_eq!(
        args_of(&show_command("abc")),
        ["show", "--pretty=format:%H%n%an%n%ad%n%B", "--no-patch", "abc"]
    );
    assert_eq!(
        args_of(&show_files_command("abc")),
        ["show", "--pretty=format:", "--name-status", "abc"]
    );
    assert_eq!(
        args_of(&show_file_diff_command("abc", "f.txt")),
        ["show", "--pretty=format:", "abc", "--", "f.txt"]
    );
    assert_eq!(args_of(&diff_command("f.txt"))[0], "diff");
    let spec = status_command();
    assert_eq!(spec.program, "git");
    assert!(spec.no_window);
}

#[test]
fn log_command_scope_flags() {
    let base_len = 6;
    let all = log_command(true, "", false);
    assert_eq!(all.args.len(), base_len + 1);
    assert_eq!(all.args[base_len], "--all");

    let plain = log_command(false, "", false);
    assert_eq!(plain.args.len(), base_len);
    assert_eq!(plain.args[0], "log");

    let scoped = log_command(false, "dev", true);
    assert_eq!(scoped.args[base_len], "--first-parent");
    assert_eq!(scoped.args[base_len + 1], "dev");
    assert_eq!(scoped.args[base_len + 2], "--");
}

#[test]
fn commit_command_amends_without_a_message() {
    let files = vec!["a.txt".to_string(), "b.txt".to_string()];
    let with_message = commit_command(&files, "msg");
    assert_eq!(args_of(&with_message), ["commit", "-m", "msg", "a.txt", "b.txt"]);
    let amend = commit_command(&files, "");
    assert_eq!(args_of(&amend), ["commit", "--amend", "--no-edit", "a.txt", "b.txt"]);
    let staging = stage_command(&files);
    assert_eq!(args_of(&staging), ["add", "a.txt", "b.txt"]);
}

#[test]
fn discard_partition_and_its_commands() {
    let records = parse_status(" M keep.txt\n?? new.txt\n D gone.txt\n A fresh.txt");
    let (adds, others) = partition_discards(&records);
    assert_eq!(adds.len(), 2);
    assert_eq!(adds[0].filename, "new.txt");
    assert_eq!(adds[1].filename, "fresh.txt");
    assert_eq!(others.len(), 2);
    assert_eq!(others[0].filename, "keep.txt");
    assert_eq!(others[1].filename, "gone.txt");
    assert_eq!(args_of(&clean_command(&adds)), ["clean", "-f", "new.txt", "fresh.txt"]);
    assert_eq!(
        args_of(&checkout_files_command(&others)),
        ["checkout", "--", "keep.txt", "gone.txt"]
    );
}

#[test]
fn show_ref_command_distinguishes_remote_refs() {
    let local = show_ref_command("main", false);
    assert_eq!(args_of(&local), ["show-ref", "--verify", "refs/heads/main"]);
    let remote = show_ref_command("remotes/origin/dev", true);
    assert_eq!(args_of(&remote), ["show-ref", "--verify", "refs/remotes/origin/dev"]);
}

#[test]
fn creation_flags_request_no_window() {
    let mut spec = ProcessSpec {
        program: "git".to_string(),
        args: Vec::new(),
        no_window: false,
    };
    spec.set_creation_flags();
    assert!(spec.no_window);
    let mut chained = ProcessSpec {
        program: "git".to_string(),
        args: Vec::new(),
        no_window: false,
    };
    assert!(chained.set_creation_flags().no_window);
}
