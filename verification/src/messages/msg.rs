use vstd::prelude::*;

verus! {

pub const INTERNAL_ERROR: i32 = 0;
pub const INIT_FAILED: i32 = 1;
pub const CONNECTION_INFO: i32 = 2;
pub const ALL_TASKS_COMPLETED: i32 = 3;
pub const ASYNC_CALL_INFO: i32 = 4;
pub const DESTROYED: i32 = 5;

pub const TASK_CHAIN_ERROR: i32 = 10000;
pub const TASK_CHAIN_START: i32 = 10001;
pub const TASK_CHAIN_COMPLETED: i32 = 10002;
pub const TASK_CHAIN_EXTRA_INFO: i32 = 10003;
pub const TASK_CHAIN_STOPPED: i32 = 10004;

pub const SUB_TASK_ERROR: i32 = 20000;
pub const SUB_TASK_START: i32 = 20001;
pub const SUB_TASK_COMPLETED: i32 = 20002;
pub const SUB_TASK_EXTRA_INFO: i32 = 20003;
pub const SUB_TASK_STOPPED: i32 = 20004;

pub const REPORT_REQUEST: i32 = 30000;

} // verus!
