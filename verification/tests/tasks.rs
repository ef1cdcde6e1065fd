use std::io::ErrorKind;

use vcpu_tasks::error::{binding_mismatch_text, spawn_failure_text, VcpuTaskError};
use vcpu_tasks::tasks::{CommandRun, Spawn, TaskCommand, TaskStarter, VcpuTasks};

/// Starts all tasks, each named after its vCPU and its binding.
fn start(mut starter: TaskStarter<String>) -> VcpuTasks<String> {
    while let Some(Spawn { vcpu, bind_cpu }) = starter.next_spawn() {
        starter = starter.spawned(Ok(format!("{} on {:?}", vcpu, bind_cpu))).unwrap();
    }
    starter.finish()
}

#[test]
fn starts_one_task_for_each_vcpu() {
    let tasks = start(VcpuTasks::new(3, None).unwrap());
    assert_eq!(tasks.tasks, vec!["0 on None", "1 on None", "2 on None"]);
}

#[test]
fn binds_each_vcpu_to_its_cpu() {
    let tasks = start(VcpuTasks::new(3, Some(vec![8, 4, 8])).unwrap());
    assert_eq!(tasks.tasks, vec!["0 on Some(8)", "1 on Some(4)", "2 on Some(8)"]);
}

#[test]
fn no_vcpus() {
    assert!(start(VcpuTasks::new(0, None).unwrap()).tasks.is_empty());
    assert!(start(VcpuTasks::new(0, Some(vec![])).unwrap()).tasks.is_empty());
}

#[test]
fn binding_mismatch() {
    for cpus in [vec![], vec![1], vec![1, 2, 3]] {
        let bound = cpus.len();
        match VcpuTasks::<u8>::new(2, Some(cpus)) {
            Err(VcpuTaskError::CpuBindingMismatch { bindings, vcpus }) => {
                assert_eq!((bindings, vcpus), (bound, 2));
            }
            other => panic!("{:?}", other),
        }
    }
}

#[test]
fn spawn_failure() {
    let starter = VcpuTasks::<u8>::new(2, None).unwrap().spawned(Ok(7)).unwrap();
    assert_eq!(starter.next_spawn(), Some(Spawn { vcpu: 1, bind_cpu: None }));
    match starter.spawned(Err(std::io::Error::from(ErrorKind::OutOfMemory))) {
        Err(VcpuTaskError::BackingThreadSpawnFailed(error)) => {
            assert_eq!(error.kind(), ErrorKind::OutOfMemory);
        }
        other => panic!("{:?}", other),
    }
}

/// Carries commands out, all well but those given, and returns those that were
/// asked for and whether the run failed.
fn carry_out(mut run: CommandRun, bad: &[TaskCommand]) -> (Vec<TaskCommand>, bool) {
    let mut asked = Vec::new();
    while let Some(command) = run.next_command() {
        asked.push(command);
        run = run.carried_out(!bad.contains(&command));
    }
    (asked, run.failed)
}

#[test]
fn pause_and_resume_reach_every_task_in_order() {
    let tasks = start(VcpuTasks::new(3, None).unwrap());
    assert_eq!(
        carry_out(tasks.pause_all(), &[]),
        (vec![TaskCommand::Hold(0), TaskCommand::Hold(1), TaskCommand::Hold(2)], false)
    );
    assert_eq!(
        carry_out(tasks.resume_all(), &[]),
        (vec![TaskCommand::Run(0), TaskCommand::Run(1), TaskCommand::Run(2)], false)
    );
}

#[test]
fn first_failed_hold_is_the_last() {
    let tasks = start(VcpuTasks::new(3, None).unwrap());
    assert_eq!(
        carry_out(tasks.pause_all(), &[TaskCommand::Hold(1), TaskCommand::Hold(2)]),
        (vec![TaskCommand::Hold(0), TaskCommand::Hold(1)], true)
    );
    assert_eq!(
        carry_out(tasks.pause_all(), &[TaskCommand::Hold(2)]),
        (vec![TaskCommand::Hold(0), TaskCommand::Hold(1), TaskCommand::Hold(2)], true)
    );
}

#[test]
fn first_failed_run_is_the_last() {
    let tasks = start(VcpuTasks::new(3, None).unwrap());
    assert_eq!(
        carry_out(tasks.resume_all(), &[TaskCommand::Run(0)]),
        (vec![TaskCommand::Run(0)], true)
    );
}

#[test]
fn all_exit_before_any_is_joined() {
    let mut tasks = start(VcpuTasks::new(2, None).unwrap());
    let (run, ended) = tasks.exit_all();
    assert_eq!(
        carry_out(run, &[]),
        (
            vec![
                TaskCommand::Exit(0),
                TaskCommand::Exit(1),
                TaskCommand::Join(0),
                TaskCommand::Join(1)
            ],
            false
        )
    );
    assert_eq!(ended, vec!["0 on None", "1 on None"]);
    assert!(tasks.tasks.is_empty());
}

#[test]
fn first_failed_join_is_the_last() {
    let mut tasks = start(VcpuTasks::new(3, None).unwrap());
    let (run, _) = tasks.exit_all();
    assert_eq!(
        carry_out(run, &[TaskCommand::Join(1)]),
        (
            vec![
                TaskCommand::Exit(0),
                TaskCommand::Exit(1),
                TaskCommand::Exit(2),
                TaskCommand::Join(0),
                TaskCommand::Join(1)
            ],
            true
        )
    );
}

#[test]
fn asking_to_exit_cannot_fail() {
    let mut tasks = start(VcpuTasks::new(1, None).unwrap());
    let (run, _) = tasks.exit_all();
    assert_eq!(
        carry_out(run, &[TaskCommand::Exit(0)]),
        (vec![TaskCommand::Exit(0), TaskCommand::Join(0)], false)
    );
}

#[test]
fn nothing_is_left_after_exit() {
    let mut tasks = start(VcpuTasks::new(2, None).unwrap());
    tasks.exit_all();
    assert_eq!(carry_out(tasks.pause_all(), &[]), (vec![], false));
    assert_eq!(carry_out(tasks.resume_all(), &[]), (vec![], false));
    let (run, ended) = tasks.exit_all();
    assert_eq!(carry_out(run, &[]), (vec![], false));
    assert!(ended.is_empty());
}

#[test]
fn generations_count_up_and_wrap() {
    assert_eq!(VcpuTasks::<u8>::new_generation(0), 1);
    assert_eq!(VcpuTasks::<u8>::new_generation(41), 42);
    assert_eq!(VcpuTasks::<u8>::new_generation(usize::MAX), 0);
}

#[test]
fn binding_mismatch_in_words() {
    let error = VcpuTasks::<u8>::new(2, Some(vec![3])).unwrap_err();
    assert_eq!(error.to_string(), "CPU bindings did not match vCPUs: 1 bindings for 2 vCPUs");
}

#[test]
fn numbers_in_words() {
    for (bindings, vcpus) in [(0, 9), (10, 100), (1234567890, 99), (usize::MAX, 1001)] {
        assert_eq!(
            binding_mismatch_text(bindings, vcpus),
            format!("CPU bindings did not match vCPUs: {bindings} bindings for {vcpus} vCPUs")
        );
    }
}

#[test]
fn spawn_failure_in_words() {
    let reason = std::io::Error::new(ErrorKind::Other, "out of threads");
    let error = VcpuTasks::<u8>::new(1, None).unwrap().spawned(Err(reason)).unwrap_err();
    assert_eq!(error.to_string(), "Failed to spawn a vCPU backing thread: out of threads");
    assert_eq!(spawn_failure_text(""), "Failed to spawn a vCPU backing thread: ");
}
