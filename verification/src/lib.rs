//! Staging of the `accept4` system call into a shared block of memory.
//!
//! A call is staged in three steps: its arguments are laid out in a block
//! by an [`block::Allocator`] and turned into the syscall's argument vector,
//! the inputs are written into the block, and once the host has executed the
//! call, the outputs are collected from the block back into the caller's
//! buffers.

pub mod block;
pub mod sys;
pub mod sockaddr;
pub mod accept4;
