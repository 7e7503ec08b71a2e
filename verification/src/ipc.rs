//! Decisions of the IPC link between the patcher and its status window:
//! where the link lives, when a client keeps waiting for the server, and
//! what the window's listener does with each thing it receives.

use vstd::prelude::*;
use vstd::slice::*;
use vstd::string::*;

verus! {

/// The path separator `/` (Unix), as a byte.
pub const SLASH: u8 = 47;

/// Name of the socket file that the server creates in the temporary
/// directory (Unix), as bytes: the ASCII codes of `gmodpatchtool.sock`.
pub open spec fn socket_file_name() -> Seq<u8> {
    seq![
        103u8, 109, 111, 100, 112, 97, 116, 99, 104, 116, 111, 111, 108, 46, 115, 111, 99, 107,
    ]
}

/// `dir` joined with the relative file name `name`, as a Unix path (bytes):
/// a `/` goes between them unless `dir` is empty or already ends with one.
pub open spec fn joined_path(dir: Seq<u8>, name: Seq<u8>) -> Seq<u8> {
    if dir.len() == 0 {
        name
    } else if dir.last() == SLASH {
        dir + name
    } else {
        dir + seq![SLASH] + name
    }
}

/// Whether joining a file name to `dir` puts a `/` between them: `dir` is
/// not empty and does not already end with one.
pub open spec fn needs_separator(dir: Seq<u8>) -> bool {
    dir.len() > 0 && dir.last() != 47u8
}

/// A joined path starts with the whole directory and ends with the whole
/// file name, with exactly one `/` (byte 47) between them when the directory
/// is not empty and does not end with one, and nothing between them
/// otherwise.
pub proof fn lemma_joined_path_shape(dir: Seq<u8>, name: Seq<u8>)
    ensures
        joined_path(dir, name).take(dir.len() as int) == dir,
        joined_path(dir, name).skip(joined_path(dir, name).len() - name.len()) == name,
        joined_path(dir, name).len() == dir.len() + name.len() + (if needs_separator(dir) {
            1int
        } else {
            0int
        }),
        needs_separator(dir) ==> joined_path(dir, name)[dir.len() as int] == 47u8,
{
    let path = joined_path(dir, name);
    if dir.len() == 0 {
        assert(path.take(0) == dir);
        assert(path.skip(0) == name);
    } else if dir.last() == 47u8 {
        assert(path.take(dir.len() as int) == dir);
        assert(path.skip(dir.len() as int) == name);
    } else {
        assert(path.take(dir.len() as int) == dir);
        assert(path.skip(dir.len() + 1int) == name);
    }
}

/// The socket file name spelled out: `gmodpatchtool.sock`, 18 bytes.
pub proof fn lemma_socket_file_name()
    ensures
        socket_file_name().len() == 18,
        socket_file_name() == seq![
            103u8, 109, 111, 100, 112, 97, 116, 99, 104, 116, 111, 111, 108, 46, 115, 111, 99, 107,
        ],
{
}

/// Path of the Unix socket of the link, given the temporary directory; both
/// are the raw bytes of the paths.
pub fn socket_path(temp_dir: &[u8]) -> (path: Vec<u8>)
    ensures
        path@ == joined_path(temp_dir@, socket_file_name()),
        path@.take(temp_dir@.len() as int) == temp_dir@,
        path@.skip(path@.len() - 18) == socket_file_name(),
        path@.len() == temp_dir@.len() + 18 + (if needs_separator(temp_dir@) {
            1int
        } else {
            0int
        }),
        needs_separator(temp_dir@) ==> path@[temp_dir@.len() as int] == 47u8,
{
    proof {
        lemma_joined_path_shape(temp_dir@, socket_file_name());
    }
    let name: Vec<u8> = vec![
        103u8, 109, 111, 100, 112, 97, 116, 99, 104, 116, 111, 111, 108, 46, 115, 111, 99, 107,
    ];
    let n = temp_dir.len();
    let mut path = slice_to_vec(temp_dir);
    if n > 0 && temp_dir[n - 1] != SLASH {
        path.push(SLASH);
    }
    let ghost dir = path@;
    let mut i: usize = 0;
    while i < name.len()
        invariant
            i <= name@.len(),
            name@ == socket_file_name(),
            path@ == dir + name@.take(i as int),
        decreases name.len() - i,
    {
        path.push(name[i]);
        i = i + 1;
        assert(name@.take(i as int) == name@.take(i - 1).push(name@[i - 1]));
    }
    assert(name@.take(name@.len() as int) == name@);
    path
}

/// Name of the named pipe of the link (Windows).
pub fn pipe_socket_path() -> (path: String)
    ensures
        path@ == "\\\\.\\pipe\\gmodpatchtool"@,
{
    String::from_str("\\\\.\\pipe\\gmodpatchtool")
}

/// Whether a Unix client keeps waiting for the server after probing for the
/// socket file: only while the probe succeeds and finds no file.  A probe
/// that fails, or finds the file, lets the client go on and connect.
pub fn socket_probe_waits<E>(probe: &Result<bool, E>) -> (wait: bool)
    ensures
        wait <==> (*probe matches Ok(found) && !found),
{
    match probe {
        Ok(found) => !*found,
        Err(_) => false,
    }
}

/// `windows_sys::Win32::Foundation::ERROR_PIPE_BUSY`: the system error code
/// for "all pipe instances are busy", which the source defines as 231.
#[verifier::external_body]
fn pipe_busy_code() -> (code: u32)
    ensures
        code == 231,
{
    windows_sys::Win32::Foundation::ERROR_PIPE_BUSY
}

/// What a Windows client does after trying to open the pipe.
#[derive(Debug, Clone, Copy, PartialEq, Eq)]
pub enum PipeOpenStep {
    /// The pipe is open: use it.
    Connected,
    /// All pipe instances are busy: wait, then try again.
    Retry,
    /// Any other failure: give up with the error.
    Fail,
}

/// Whether a failed open reported "all pipe instances are busy".
pub open spec fn is_pipe_busy(os_error: Option<i32>) -> bool {
    os_error == Some(231i32)
}

/// A failed open counts as "all pipe instances are busy" exactly when it
/// carries the system error code 231 (`ERROR_PIPE_BUSY`); every other code,
/// and a failure without a code, does not, so the client retries on that one
/// code only.
pub proof fn lemma_only_busy_pipe_retries(code: i32)
    ensures
        is_pipe_busy(Some(code)) <==> code == 231,
        !is_pipe_busy(None),
{
}

/// Decides what a Windows client does after one attempt to open the pipe;
/// a failure comes with the system error code it carried, if any.
pub fn pipe_open_step(outcome: Result<(), Option<i32>>) -> (step: PipeOpenStep)
    ensures
        step == (match outcome {
            Ok(()) => PipeOpenStep::Connected,
            Err(os_error) => if is_pipe_busy(os_error) {
                PipeOpenStep::Retry
            } else {
                PipeOpenStep::Fail
            },
        }),
        (step is Connected) <==> (outcome is Ok),
        outcome matches Err(Some(code)) ==> ((step is Retry) <==> code == 231),
        outcome matches Err(Some(code)) ==> ((step is Fail) <==> code != 231),
        outcome matches Err(None) ==> step is Fail,
{
    match outcome {
        Ok(()) => PipeOpenStep::Connected,
        Err(Some(code)) => {
            let busy = pipe_busy_code();
            if code == busy as i32 {
                PipeOpenStep::Retry
            } else {
                PipeOpenStep::Fail
            }
        },
        Err(None) => PipeOpenStep::Fail,
    }
}

/// What the window's listener hands on to the window.
pub enum ListenerEvent<T> {
    /// A request the patcher sent.
    Request(T),
    /// The link failed to receive, with the error's message.
    Failure(String),
}

/// Decides what the window's listener does with the outcome of one receive:
/// a request or a receive error goes on to the window, and the listener then
/// keeps listening if the window took it; the end of the link (`Ok(None)`)
/// stops the listener (`None`).
pub fn listener_step<T>(received: Result<Option<T>, String>) -> (step: Option<ListenerEvent<T>>)
    ensures
        match received {
            Ok(Some(request)) => step == Some(ListenerEvent::Request(request)),
            Ok(None) => step is None,
            Err(message) => step == Some(ListenerEvent::<T>::Failure(message)),
        },
{
    match received {
        Ok(Some(request)) => Some(ListenerEvent::Request(request)),
        Ok(None) => None,
        Err(message) => Some(ListenerEvent::Failure(message)),
    }
}

} // verus!
