//! Decisions behind the tasks that back a guest's vCPUs.
//!
//! Each vCPU is driven by a thread that enters the guest, handles what made the
//! guest exit, and enters it again. This crate decides on that path what to
//! do next, and with which values. It makes no call into the hypervisor itself:
//! a driver performs the action that a state asks for and hands the outcome
//! back.
//!
//! - [`instruction`] recognises the string I/O instructions INS and OUTS.
//! - [`string_io`] emulates one of them, register by register and element by
//!   element; [`string_io_laws`] proves what holds of a whole emulation.
//! - [`vcpu_loop`] is the life of one vCPU's thread; [`vcpu_loop_laws`] proves
//!   what holds of all of it.
//! - [`tasks`] brings the threads of all vCPUs up and commands them together;
//!   [`tasks_laws`] proves what holds of that.
//! - [`error`] says why they could not be brought up, also in words.

pub mod error;
pub mod instruction;
pub mod string_io;
pub mod string_io_laws;
pub mod tasks;
pub mod tasks_laws;
pub mod vcpu_loop;
pub mod vcpu_loop_laws;
