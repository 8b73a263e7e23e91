//! The client side: requests as they are built and sent, and the call that
//! collects their responses.

pub mod builder;
pub mod response;

pub use builder::{Request, RequestBuilder};
pub use response::{Call, ResponseErr, Return};

use crate::body::{base64_text, max_body_len};
use crate::protocol::json::{lemma_object_view, members_view, Json, JsonView, Member};
use vstd::prelude::*;

verus! {

/// The command that uploads a file.
pub const UPLOAD_COMMAND: &'static str = "msgbus.system.file.upload";

/// The arguments of the upload command.
#[derive(Debug)]
pub struct Upload<'a> {
    /// The file to upload.
    pub path: &'a str,
    /// The command that is to receive the file.
    pub cmd: &'a str,
}

/// The key of the file of an upload.
pub const PATH: &'static str = "path";

/// The key of the command of an upload.
pub const CMD: &'static str = "cmd";

impl<'a> Upload<'a> {
    /// The arguments as a JSON object: the file and the command, each under
    /// its key.
    pub open spec fn json(self) -> JsonView {
        JsonView::Object(
            seq![(PATH@, JsonView::Text(self.path@)), (CMD@, JsonView::Text(self.cmd@))],
        )
    }

    /// Writes the arguments as a JSON object.
    pub fn to_json(&self) -> (json: Json)
        ensures
            json@ == self.json(),
    {
        let mut members: Vec<Member> = Vec::new();
        members.push(Member { key: PATH.to_owned(), value: Json::Text(self.path.to_owned()) });
        members.push(Member { key: CMD.to_owned(), value: Json::Text(self.cmd.to_owned()) });
        proof {
            lemma_object_view(members);
            assert(members_view(members@) =~= self.json()->Object_0);
        }
        Json::Object(members)
    }
}

/// The request that uploads a file to the twin `destination`; `args` is the
/// JSON text of the [`Upload`].
pub fn upload(destination: u32, args: &[u8]) -> (request: Request)
    requires
        args@.len() <= max_body_len(),
    ensures
        request@.command == UPLOAD_COMMAND@,
        request@.destinations == seq![destination],
        request@.data == base64_text(args@),
        request@.fresh(),
{
    Request::new(UPLOAD_COMMAND).destination(destination).args(args)
}

/// Makes `request` ready to be sent at `now`: stamps it with the time, and
/// opens the call that collects its responses until the deadline, one for
/// each destination.
pub fn send(request: Request, now: u64) -> (sent: (Request, Call))
    requires
        now + request@.expiration <= u64::MAX,
    ensures
        sent.0@ == request@.at(now),
        sent.1@ == response::opened(sent.0@),
{
    let request = request.stamp(now);
    let call = Call::new(
        request.get_ret().clone(),
        request.destinations_len(),
        request.calc_deadline(),
    );
    (request, call)
}

} // verus!
