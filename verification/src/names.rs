use vstd::prelude::*;

verus! {

// Byte constants of the protocol: method names, command names, the server's
// identity, and the texts of the log notifications it emits.

/// The bytes of `initialize`.
pub open spec fn m_initialize() -> Seq<u8> {
    seq![105u8, 110u8, 105u8, 116u8, 105u8, 97u8, 108u8, 105u8, 122u8, 101u8]
}

pub fn m_initialize_vec() -> (r: Vec<u8>)
    ensures
        r@ == m_initialize(),
{
    let mut v: Vec<u8> = Vec::new();
    v.push(105);
    v.push(110);
    v.push(105);
    v.push(116);
    v.push(105);
    v.push(97);
    v.push(108);
    v.push(105);
    v.push(122);
    v.push(101);
    proof {
        assert(v@ =~= m_initialize());
    }
    v
}

/// The bytes of `initialized`.
pub open spec fn m_initialized() -> Seq<u8> {
    seq![105u8, 110u8, 105u8, 116u8, 105u8, 97u8, 108u8, 105u8, 122u8, 101u8, 100u8]
}

pub fn m_initialized_vec() -> (r: Vec<u8>)
    ensures
        r@ == m_initialized(),
{
    let mut v: Vec<u8> = Vec::new();
    v.push(105);
    v.push(110);
    v.push(105);
    v.push(116);
    v.push(105);
    v.push(97);
    v.push(108);
    v.push(105);
    v.push(122);
    v.push(101);
    v.push(100);
    proof {
        assert(v@ =~= m_initialized());
    }
    v
}

/// The bytes of `shutdown`.
pub open spec fn m_shutdown() -> Seq<u8> {
    seq![115u8, 104u8, 117u8, 116u8, 100u8, 111u8, 119u8, 110u8]
}

pub fn m_shutdown_vec() -> (r: Vec<u8>)
    ensures
        r@ == m_shutdown(),
{
    let mut v: Vec<u8> = Vec::new();
    v.push(115);
    v.push(104);
    v.push(117);
    v.push(116);
    v.push(100);
    v.push(111);
    v.push(119);
    v.push(110);
    proof {
        assert(v@ =~= m_shutdown());
    }
    v
}

/// The bytes of `exit`.
pub open spec fn m_exit() -> Seq<u8> {
    seq![101u8, 120u8, 105u8, 116u8]
}

pub fn m_exit_vec() -> (r: Vec<u8>)
    ensures
        r@ == m_exit(),
{
    let mut v: Vec<u8> = Vec::new();
    v.push(101);
    v.push(120);
    v.push(105);
    v.push(116);
    proof {
        assert(v@ =~= m_exit());
    }
    v
}

/// The bytes of `textDocument/didOpen`.
pub open spec fn m_did_open() -> Seq<u8> {
    seq![116u8, 101u8, 120u8, 116u8, 68u8, 111u8, 99u8, 117u8, 109u8, 101u8, 110u8, 116u8, 47u8, 100u8, 105u8, 100u8, 79u8, 112u8, 101u8, 110u8]
}

pub fn m_did_open_vec() -> (r: Vec<u8>)
    ensures
        r@ == m_did_open(),
{
    let mut v: Vec<u8> = Vec::new();
    v.push(116);
    v.push(101);
    v.push(120);
    v.push(116);
    v.push(68);
    v.push(111);
    v.push(99);
    v.push(117);
    v.push(109);
    v.push(101);
    v.push(110);
    v.push(116);
    v.push(47);
    v.push(100);
    v.push(105);
    v.push(100);
    v.push(79);
    v.push(112);
    v.push(101);
    v.push(110);
    proof {
        assert(v@ =~= m_did_open());
    }
    v
}

/// The bytes of `textDocument/didChange`.
pub open spec fn m_did_change() -> Seq<u8> {
    seq![116u8, 101u8, 120u8, 116u8, 68u8, 111u8, 99u8, 117u8, 109u8, 101u8, 110u8, 116u8, 47u8, 100u8, 105u8, 100u8, 67u8, 104u8, 97u8, 110u8, 103u8, 101u8]
}

pub fn m_did_change_vec() -> (r: Vec<u8>)
    ensures
        r@ == m_did_change(),
{
    let mut v: Vec<u8> = Vec::new();
    v.push(116);
    v.push(101);
    v.push(120);
    v.push(116);
    v.push(68);
    v.push(111);
    v.push(99);
    v.push(117);
    v.push(109);
    v.push(101);
    v.push(110);
    v.push(116);
    v.push(47);
    v.push(100);
    v.push(105);
    v.push(100);
    v.push(67);
    v.push(104);
    v.push(97);
    v.push(110);
    v.push(103);
    v.push(101);
    proof {
        assert(v@ =~= m_did_change());
    }
    v
}

/// The bytes of `textDocument/didSave`.
pub open spec fn m_did_save() -> Seq<u8> {
    seq![116u8, 101u8, 120u8, 116u8, 68u8, 111u8, 99u8, 117u8, 109u8, 101u8, 110u8, 116u8, 47u8, 100u8, 105u8, 100u8, 83u8, 97u8, 118u8, 101u8]
}

pub fn m_did_save_vec() -> (r: Vec<u8>)
    ensures
        r@ == m_did_save(),
{
    let mut v: Vec<u8> = Vec::new();
    v.push(116);
    v.push(101);
    v.push(120);
    v.push(116);
    v.push(68);
    v.push(111);
    v.push(99);
    v.push(117);
    v.push(109);
    v.push(101);
    v.push(110);
    v.push(116);
    v.push(47);
    v.push(100);
    v.push(105);
    v.push(100);
    v.push(83);
    v.push(97);
    v.push(118);
    v.push(101);
    proof {
        assert(v@ =~= m_did_save());
    }
    v
}

/// The bytes of `textDocument/didClose`.
pub open spec fn m_did_close() -> Seq<u8> {
    seq![116u8, 101u8, 120u8, 116u8, 68u8, 111u8, 99u8, 117u8, 109u8, 101u8, 110u8, 116u8, 47u8, 100u8, 105u8, 100u8, 67u8, 108u8, 111u8, 115u8, 101u8]
}

pub fn m_did_close_vec() -> (r: Vec<u8>)
    ensures
        r@ == m_did_close(),
{
    let mut v: Vec<u8> = Vec::new();
    v.push(116);
    v.push(101);
    v.push(120);
    v.push(116);
    v.push(68);
    v.push(111);
    v.push(99);
    v.push(117);
    v.push(109);
    v.push(101);
    v.push(110);
    v.push(116);
    v.push(47);
    v.push(100);
    v.push(105);
    v.push(100);
    v.push(67);
    v.push(108);
    v.push(111);
    v.push(115);
    v.push(101);
    proof {
        assert(v@ =~= m_did_close());
    }
    v
}

/// The bytes of `textDocument/completion`.
pub open spec fn m_completion() -> Seq<u8> {
    seq![116u8, 101u8, 120u8, 116u8, 68u8, 111u8, 99u8, 117u8, 109u8, 101u8, 110u8, 116u8, 47u8, 99u8, 111u8, 109u8, 112u8, 108u8, 101u8, 116u8, 105u8, 111u8, 110u8]
}

pub fn m_completion_vec() -> (r: Vec<u8>)
    ensures
        r@ == m_completion(),
{
    let mut v: Vec<u8> = Vec::new();
    v.push(116);
    v.push(101);
    v.push(120);
    v.push(116);
    v.push(68);
    v.push(111);
    v.push(99);
    v.push(117);
    v.push(109);
    v.push(101);
    v.push(110);
    v.push(116);
    v.push(47);
    v.push(99);
    v.push(111);
    v.push(109);
    v.push(112);
    v.push(108);
    v.push(101);
    v.push(116);
    v.push(105);
    v.push(111);
    v.push(110);
    proof {
        assert(v@ =~= m_completion());
    }
    v
}

/// The bytes of `workspace/executeCommand`.
pub open spec fn m_execute_command() -> Seq<u8> {
    seq![119u8, 111u8, 114u8, 107u8, 115u8, 112u8, 97u8, 99u8, 101u8, 47u8, 101u8, 120u8, 101u8, 99u8, 117u8, 116u8, 101u8, 67u8, 111u8, 109u8, 109u8, 97u8, 110u8, 100u8]
}

pub fn m_execute_command_vec() -> (r: Vec<u8>)
    ensures
        r@ == m_execute_command(),
{
    let mut v: Vec<u8> = Vec::new();
    v.push(119);
    v.push(111);
    v.push(114);
    v.push(107);
    v.push(115);
    v.push(112);
    v.push(97);
    v.push(99);
    v.push(101);
    v.push(47);
    v.push(101);
    v.push(120);
    v.push(101);
    v.push(99);
    v.push(117);
    v.push(116);
    v.push(101);
    v.push(67);
    v.push(111);
    v.push(109);
    v.push(109);
    v.push(97);
    v.push(110);
    v.push(100);
    proof {
        assert(v@ =~= m_execute_command());
    }
    v
}

/// The bytes of `dummy.do_something`.
pub open spec fn cmd_apply_edit() -> Seq<u8> {
    seq![100u8, 117u8, 109u8, 109u8, 121u8, 46u8, 100u8, 111u8, 95u8, 115u8, 111u8, 109u8, 101u8, 116u8, 104u8, 105u8, 110u8, 103u8]
}

pub fn cmd_apply_edit_vec() -> (r: Vec<u8>)
    ensures
        r@ == cmd_apply_edit(),
{
    let mut v: Vec<u8> = Vec::new();
    v.push(100);
    v.push(117);
    v.push(109);
    v.push(109);
    v.push(121);
    v.push(46);
    v.push(100);
    v.push(111);
    v.push(95);
    v.push(115);
    v.push(111);
    v.push(109);
    v.push(101);
    v.push(116);
    v.push(104);
    v.push(105);
    v.push(110);
    v.push(103);
    proof {
        assert(v@ =~= cmd_apply_edit());
    }
    v
}

/// The bytes of `custom.notification`.
pub open spec fn cmd_notify() -> Seq<u8> {
    seq![99u8, 117u8, 115u8, 116u8, 111u8, 109u8, 46u8, 110u8, 111u8, 116u8, 105u8, 102u8, 105u8, 99u8, 97u8, 116u8, 105u8, 111u8, 110u8]
}

pub fn cmd_notify_vec() -> (r: Vec<u8>)
    ensures
        r@ == cmd_notify(),
{
    let mut v: Vec<u8> = Vec::new();
    v.push(99);
    v.push(117);
    v.push(115);
    v.push(116);
    v.push(111);
    v.push(109);
    v.push(46);
    v.push(110);
    v.push(111);
    v.push(116);
    v.push(105);
    v.push(102);
    v.push(105);
    v.push(99);
    v.push(97);
    v.push(116);
    v.push(105);
    v.push(111);
    v.push(110);
    proof {
        assert(v@ =~= cmd_notify());
    }
    v
}

/// The bytes of `language-server-rust`.
pub open spec fn server_name() -> Seq<u8> {
    seq![108u8, 97u8, 110u8, 103u8, 117u8, 97u8, 103u8, 101u8, 45u8, 115u8, 101u8, 114u8, 118u8, 101u8, 114u8, 45u8, 114u8, 117u8, 115u8, 116u8]
}

pub fn server_name_vec() -> (r: Vec<u8>)
    ensures
        r@ == server_name(),
{
    let mut v: Vec<u8> = Vec::new();
    v.push(108);
    v.push(97);
    v.push(110);
    v.push(103);
    v.push(117);
    v.push(97);
    v.push(103);
    v.push(101);
    v.push(45);
    v.push(115);
    v.push(101);
    v.push(114);
    v.push(118);
    v.push(101);
    v.push(114);
    v.push(45);
    v.push(114);
    v.push(117);
    v.push(115);
    v.push(116);
    proof {
        assert(v@ =~= server_name());
    }
    v
}

/// The bytes of `0.0.1`.
pub open spec fn server_version() -> Seq<u8> {
    seq![48u8, 46u8, 48u8, 46u8, 49u8]
}

pub fn server_version_vec() -> (r: Vec<u8>)
    ensures
        r@ == server_version(),
{
    let mut v: Vec<u8> = Vec::new();
    v.push(48);
    v.push(46);
    v.push(48);
    v.push(46);
    v.push(49);
    proof {
        assert(v@ =~= server_version());
    }
    v
}

/// The bytes of `.`.
pub open spec fn dot_trigger() -> Seq<u8> {
    seq![46u8]
}

pub fn dot_trigger_vec() -> (r: Vec<u8>)
    ensures
        r@ == dot_trigger(),
{
    let mut v: Vec<u8> = Vec::new();
    v.push(46);
    proof {
        assert(v@ =~= dot_trigger());
    }
    v
}

/// The bytes of `initialized!`.
pub open spec fn t_initialized() -> Seq<u8> {
    seq![105u8, 110u8, 105u8, 116u8, 105u8, 97u8, 108u8, 105u8, 122u8, 101u8, 100u8, 33u8]
}

pub fn t_initialized_vec() -> (r: Vec<u8>)
    ensures
        r@ == t_initialized(),
{
    let mut v: Vec<u8> = Vec::new();
    v.push(105);
    v.push(110);
    v.push(105);
    v.push(116);
    v.push(105);
    v.push(97);
    v.push(108);
    v.push(105);
    v.push(122);
    v.push(101);
    v.push(100);
    v.push(33);
    proof {
        assert(v@ =~= t_initialized());
    }
    v
}

/// The bytes of `file opened!`.
pub open spec fn t_opened() -> Seq<u8> {
    seq![102u8, 105u8, 108u8, 101u8, 32u8, 111u8, 112u8, 101u8, 110u8, 101u8, 100u8, 33u8]
}

pub fn t_opened_vec() -> (r: Vec<u8>)
    ensures
        r@ == t_opened(),
{
    let mut v: Vec<u8> = Vec::new();
    v.push(102);
    v.push(105);
    v.push(108);
    v.push(101);
    v.push(32);
    v.push(111);
    v.push(112);
    v.push(101);
    v.push(110);
    v.push(101);
    v.push(100);
    v.push(33);
    proof {
        assert(v@ =~= t_opened());
    }
    v
}

/// The bytes of `file changed!`.
pub open spec fn t_changed() -> Seq<u8> {
    seq![102u8, 105u8, 108u8, 101u8, 32u8, 99u8, 104u8, 97u8, 110u8, 103u8, 101u8, 100u8, 33u8]
}

pub fn t_changed_vec() -> (r: Vec<u8>)
    ensures
        r@ == t_changed(),
{
    let mut v: Vec<u8> = Vec::new();
    v.push(102);
    v.push(105);
    v.push(108);
    v.push(101);
    v.push(32);
    v.push(99);
    v.push(104);
    v.push(97);
    v.push(110);
    v.push(103);
    v.push(101);
    v.push(100);
    v.push(33);
    proof {
        assert(v@ =~= t_changed());
    }
    v
}

/// The bytes of `file saved!`.
pub open spec fn t_saved() -> Seq<u8> {
    seq![102u8, 105u8, 108u8, 101u8, 32u8, 115u8, 97u8, 118u8, 101u8, 100u8, 33u8]
}

pub fn t_saved_vec() -> (r: Vec<u8>)
    ensures
        r@ == t_saved(),
{
    let mut v: Vec<u8> = Vec::new();
    v.push(102);
    v.push(105);
    v.push(108);
    v.push(101);
    v.push(32);
    v.push(115);
    v.push(97);
    v.push(118);
    v.push(101);
    v.push(100);
    v.push(33);
    proof {
        assert(v@ =~= t_saved());
    }
    v
}

/// The bytes of `file closed!`.
pub open spec fn t_closed() -> Seq<u8> {
    seq![102u8, 105u8, 108u8, 101u8, 32u8, 99u8, 108u8, 111u8, 115u8, 101u8, 100u8, 33u8]
}

pub fn t_closed_vec() -> (r: Vec<u8>)
    ensures
        r@ == t_closed(),
{
    let mut v: Vec<u8> = Vec::new();
    v.push(102);
    v.push(105);
    v.push(108);
    v.push(101);
    v.push(32);
    v.push(99);
    v.push(108);
    v.push(111);
    v.push(115);
    v.push(101);
    v.push(100);
    v.push(33);
    proof {
        assert(v@ =~= t_closed());
    }
    v
}

/// The bytes of `command executed!`.
pub open spec fn t_executed() -> Seq<u8> {
    seq![99u8, 111u8, 109u8, 109u8, 97u8, 110u8, 100u8, 32u8, 101u8, 120u8, 101u8, 99u8, 117u8, 116u8, 101u8, 100u8, 33u8]
}

pub fn t_executed_vec() -> (r: Vec<u8>)
    ensures
        r@ == t_executed(),
{
    let mut v: Vec<u8> = Vec::new();
    v.push(99);
    v.push(111);
    v.push(109);
    v.push(109);
    v.push(97);
    v.push(110);
    v.push(100);
    v.push(32);
    v.push(101);
    v.push(120);
    v.push(101);
    v.push(99);
    v.push(117);
    v.push(116);
    v.push(101);
    v.push(100);
    v.push(33);
    proof {
        assert(v@ =~= t_executed());
    }
    v
}

/// The bytes of `applied`.
pub open spec fn t_applied() -> Seq<u8> {
    seq![97u8, 112u8, 112u8, 108u8, 105u8, 101u8, 100u8]
}

pub fn t_applied_vec() -> (r: Vec<u8>)
    ensures
        r@ == t_applied(),
{
    let mut v: Vec<u8> = Vec::new();
    v.push(97);
    v.push(112);
    v.push(112);
    v.push(108);
    v.push(105);
    v.push(101);
    v.push(100);
    proof {
        assert(v@ =~= t_applied());
    }
    v
}

/// The bytes of `rejected`.
pub open spec fn t_rejected() -> Seq<u8> {
    seq![114u8, 101u8, 106u8, 101u8, 99u8, 116u8, 101u8, 100u8]
}

pub fn t_rejected_vec() -> (r: Vec<u8>)
    ensures
        r@ == t_rejected(),
{
    let mut v: Vec<u8> = Vec::new();
    v.push(114);
    v.push(101);
    v.push(106);
    v.push(101);
    v.push(99);
    v.push(116);
    v.push(101);
    v.push(100);
    proof {
        assert(v@ =~= t_rejected());
    }
    v
}

/// The bytes of `apply edit failed`.
pub open spec fn t_edit_failed() -> Seq<u8> {
    seq![97u8, 112u8, 112u8, 108u8, 121u8, 32u8, 101u8, 100u8, 105u8, 116u8, 32u8, 102u8, 97u8, 105u8, 108u8, 101u8, 100u8]
}

pub fn t_edit_failed_vec() -> (r: Vec<u8>)
    ensures
        r@ == t_edit_failed(),
{
    let mut v: Vec<u8> = Vec::new();
    v.push(97);
    v.push(112);
    v.push(112);
    v.push(108);
    v.push(121);
    v.push(32);
    v.push(101);
    v.push(100);
    v.push(105);
    v.push(116);
    v.push(32);
    v.push(102);
    v.push(97);
    v.push(105);
    v.push(108);
    v.push(101);
    v.push(100);
    proof {
        assert(v@ =~= t_edit_failed());
    }
    v
}

/// The bytes of `document not found`.
pub open spec fn t_not_found() -> Seq<u8> {
    seq![100u8, 111u8, 99u8, 117u8, 109u8, 101u8, 110u8, 116u8, 32u8, 110u8, 111u8, 116u8, 32u8, 102u8, 111u8, 117u8, 110u8, 100u8]
}

pub fn t_not_found_vec() -> (r: Vec<u8>)
    ensures
        r@ == t_not_found(),
{
    let mut v: Vec<u8> = Vec::new();
    v.push(100);
    v.push(111);
    v.push(99);
    v.push(117);
    v.push(109);
    v.push(101);
    v.push(110);
    v.push(116);
    v.push(32);
    v.push(110);
    v.push(111);
    v.push(116);
    v.push(32);
    v.push(102);
    v.push(111);
    v.push(117);
    v.push(110);
    v.push(100);
    proof {
        assert(v@ =~= t_not_found());
    }
    v
}

} // verus!