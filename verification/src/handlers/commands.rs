//! The command endpoints: the cached command list and the run-command
//! handler's response building.
//!
//! Subprocess spawning and the admission wait are asynchronous and happen
//! outside the library; the decisions here map their outcomes to
//! responses: an admission failure to 429, and a finished or failed
//! subprocess to a 200 JSON payload.

use vstd::prelude::*;
use vstd::string::StringExecFns;

use std::sync::Arc;

use crate::config::{CommandInfo, CommandInfoModel};
use crate::handlers::utils::{
    build_json_body_response,
    build_json_response,
    build_status_code_response,
    spec_json_body_response,
    spec_status_code_response,
};
use crate::json::{
    append_json_number,
    append_json_string,
    append_json_string_array,
    spec_json_string,
    spec_json_string_array,
};
use crate::request::FastCGIRequest;
use crate::response::{arc_clone_string, HttpResponse, HttpResponseBody, HttpResponseModel};
use crate::response::STATUS_TOO_MANY_REQUESTS;
use crate::text::spec_decimal;

verus! {

/// The JSON object for one configured command.
pub open spec fn spec_command_info_json(m: CommandInfoModel) -> Seq<char> {
    "{\"id\":"@ + spec_json_string(m.id) + ",\"description\":"@ + spec_json_string(m.description)
        + ",\"command\":"@ + spec_json_string(m.command) + ",\"args\":"@ + spec_json_string_array(
        m.args,
    ) + "}"@
}

/// The comma-separated items of the command-list array.
pub open spec fn spec_commands_json_items(commands: Seq<CommandInfoModel>) -> Seq<char>
    decreases commands.len(),
{
    if commands.len() == 0 {
        Seq::empty()
    } else if commands.len() == 1 {
        spec_command_info_json(commands[0])
    } else {
        spec_commands_json_items(commands.drop_last()) + ","@ + spec_command_info_json(
            commands.last(),
        )
    }
}

/// The JSON array of every configured command.
pub open spec fn spec_commands_json(commands: Seq<CommandInfoModel>) -> Seq<char> {
    "["@ + spec_commands_json_items(commands) + "]"@
}

/// Appends the JSON object for one command.
fn append_command_info(out: &mut String, info: &CommandInfo)
    ensures
        final(out)@ == old(out)@ + spec_command_info_json(info@),
{
    out.append("{\"id\":");
    append_json_string(out, info.id().as_str());
    out.append(",\"description\":");
    append_json_string(out, info.description().as_str());
    out.append(",\"command\":");
    append_json_string(out, info.command().as_str());
    out.append(",\"args\":");
    append_json_string_array(out, info.args());
    out.append("}");
    proof {
        assert(out@ =~= old(out)@ + spec_command_info_json(info@));
    }
}

/// Renders the full command list as JSON.
fn commands_json_string(commands: &Vec<CommandInfo>) -> (r: String)
    ensures
        r@ == spec_commands_json(commands.deep_view()),
{
    let mut out = String::new();
    out.append("[");
    let n = commands.len();
    let mut i: usize = 0;
    while i < n
        invariant
            0 <= i <= n,
            n == commands@.len(),
            commands.deep_view().len() == n,
            forall|j: int| 0 <= j < n ==> #[trigger] commands.deep_view()[j] == commands@[j]@,
            out@ == "["@ + spec_commands_json_items(commands.deep_view().subrange(0, i as int)),
        decreases n - i,
    {
        if i > 0 {
            out.append(",");
        }
        append_command_info(&mut out, &commands[i]);
        proof {
            let dv = commands.deep_view();
            assert(dv.subrange(0, i + 1 as int).drop_last() =~= dv.subrange(0, i as int));
            assert(dv.subrange(0, i + 1 as int).last() == dv[i as int]);
            if i == 0 {
                assert(spec_commands_json_items(dv.subrange(0, 1)) == spec_command_info_json(
                    dv.subrange(0, 1)[0],
                ));
            }
            assert(out@ =~= "["@ + spec_commands_json_items(dv.subrange(0, i + 1 as int)));
        }
        i = i + 1;
    }
    out.append("]");
    proof {
        assert(commands.deep_view().subrange(0, n as int) =~= commands.deep_view());
        assert(out@ =~= spec_commands_json(commands.deep_view()));
    }
    out
}

/// Serves the configured command list. The full payload is rendered once
/// at construction and shared; every request gets the same text back.
pub struct AllCommandsHandler {
    json_string: Arc<String>,
}

impl View for AllCommandsHandler {
    type V = Seq<char>;

    closed spec fn view(&self) -> Seq<char> {
        self.json_string@
    }
}

/// The one response this handler ever produces: its cached payload with
/// status 200, whatever the request was.
pub open spec fn spec_all_commands_response(h: AllCommandsHandler) -> HttpResponseModel {
    spec_json_body_response(h@)
}

impl AllCommandsHandler {
    pub fn new(commands: &Vec<CommandInfo>) -> (h: Self)
        ensures
            h@ == spec_commands_json(commands.deep_view()),
    {
        let json_string = commands_json_string(commands);
        AllCommandsHandler { json_string: Arc::new(json_string) }
    }

    pub fn handle(&self, _request: FastCGIRequest) -> (r: HttpResponse)
        ensures
            r@ == spec_all_commands_response(*self),
    {
        build_json_body_response(HttpResponseBody::from(arc_clone_string(&self.json_string)))
    }
}

/// Serving the command list is idempotent: the response is a function of
/// the handler's cached payload alone, so any two responses the contract
/// of [`AllCommandsHandler::handle`] admits are identical, whatever the
/// requests were and whatever ran in between.
pub proof fn lemma_all_commands_idempotent(
    h: AllCommandsHandler,
    r1: HttpResponseModel,
    r2: HttpResponseModel,
)
    requires
        r1 == spec_all_commands_response(h),
        r2 == spec_all_commands_response(h),
    ensures
        r1 == r2,
        r1.body == Some(h@),
{
}

/// Mathematical model of [`CommandOutput`].
pub ghost struct CommandOutputModel {
    pub stdout: Seq<u8>,
    pub stderr: Seq<u8>,
}

/// What one finished subprocess wrote to its two output streams.
#[derive(Debug)]
pub struct CommandOutput {
    pub stdout: Vec<u8>,
    pub stderr: Vec<u8>,
}

impl View for CommandOutput {
    type V = CommandOutputModel;

    open spec fn view(&self) -> CommandOutputModel {
        CommandOutputModel { stdout: self.stdout@, stderr: self.stderr@ }
    }
}

/// The text that lossy UTF-8 decoding makes of the given bytes.
pub uninterp spec fn lossy_of(bytes: Seq<u8>) -> Seq<char>;

/// Relies on `String::from_utf8_lossy`: the decoded text is a function of
/// the bytes alone (invalid sequences become replacement characters).
#[verifier::external_body]
fn lossy_string(bytes: &[u8]) -> (r: String)
    ensures
        r@ == lossy_of(bytes@),
{
    String::from_utf8_lossy(bytes).into_owned()
}

/// Relies on chrono's `Local::now` and `to_rfc3339_opts`: the current
/// wall-clock time rendered as RFC 3339 with nanoseconds. Nothing can be
/// promised of the clock, so nothing is.
#[verifier::external_body]
fn current_time_string() -> (r: String) {
    chrono::Local::now().to_rfc3339_opts(chrono::SecondsFormat::Nanos, true)
}

/// The model of a subprocess outcome: its output streams, or the display
/// text of the error that kept it from running.
pub open spec fn spec_command_result(r: Result<CommandOutput, String>) -> Result<
    CommandOutputModel,
    Seq<char>,
> {
    match r {
        Ok(output) => Ok(output@),
        Err(e) => Err(e@),
    }
}

/// The `command_output` field: stderr then stdout, lossily decoded and
/// concatenated in that order; a spawn or exec failure becomes a formatted
/// failure message instead.
pub open spec fn spec_combined_output(result: Result<CommandOutputModel, Seq<char>>) -> Seq<char> {
    match result {
        Ok(output) => lossy_of(output.stderr) + lossy_of(output.stdout),
        Err(e) => "error running command "@ + e,
    }
}

/// The JSON payload of one command execution.
pub open spec fn spec_run_command_json(
    now: Seq<char>,
    duration_ms: int,
    info: CommandInfoModel,
    output: Seq<char>,
) -> Seq<char> {
    "{\"now\":"@ + spec_json_string(now) + ",\"command_duration_ms\":"@ + spec_decimal(duration_ms)
        + ",\"command_info\":"@ + spec_command_info_json(info) + ",\"command_output\":"@
        + spec_json_string(output) + "}"@
}

/// The 200 response wrapping [`spec_run_command_json`].
pub open spec fn spec_run_command_response(
    now: Seq<char>,
    duration_ms: int,
    info: CommandInfoModel,
    output: Seq<char>,
) -> HttpResponseModel {
    spec_json_body_response(spec_run_command_json(now, duration_ms, info, output))
}

/// Renders a subprocess outcome as text for the `command_output` field.
fn combined_output_string(command_result: &Result<CommandOutput, String>) -> (r: String)
    ensures
        r@ == spec_combined_output(spec_command_result(*command_result)),
{
    match command_result {
        Err(err) => {
            let mut out: String = "error running command ".to_owned();
            out.append(err.as_str());
            out
        },
        Ok(output) => {
            let mut out = lossy_string(output.stderr.as_slice());
            let stdout_text = lossy_string(output.stdout.as_slice());
            out.append(stdout_text.as_str());
            out
        },
    }
}

/// Runs one configured command per request. The admission wait and the
/// subprocess itself happen outside; this handler owns the command's
/// description and turns each outcome into the response.
#[derive(Debug)]
pub struct RunCommandHandler {
    command_info: CommandInfo,
}

impl View for RunCommandHandler {
    type V = CommandInfoModel;

    closed spec fn view(&self) -> CommandInfoModel {
        self.command_info@
    }
}

impl RunCommandHandler {
    pub fn new(command_info: CommandInfo) -> (h: Self)
        ensures
            h@ == command_info@,
    {
        RunCommandHandler { command_info }
    }

    pub fn command_info(&self) -> (r: &CommandInfo)
        ensures
            r@ == self@,
    {
        &self.command_info
    }

    /// The response when no permit could be acquired within the timeout:
    /// 429, no body, and the subprocess was never started.
    pub fn admission_denied_response(&self) -> (r: HttpResponse)
        ensures
            r@ == spec_status_code_response(STATUS_TOO_MANY_REQUESTS),
    {
        build_status_code_response(STATUS_TOO_MANY_REQUESTS)
    }

    /// Builds the 200 JSON response for one execution outcome, with the
    /// timestamp passed in.
    pub fn build_run_command_response(
        &self,
        now: &String,
        command_duration_ms: u128,
        command_result: &Result<CommandOutput, String>,
    ) -> (r: HttpResponse)
        ensures
            r@ == spec_run_command_response(
                now@,
                command_duration_ms as int,
                self@,
                spec_combined_output(spec_command_result(*command_result)),
            ),
    {
        let output = combined_output_string(command_result);
        let mut json = String::new();
        json.append("{\"now\":");
        append_json_string(&mut json, now.as_str());
        json.append(",\"command_duration_ms\":");
        append_json_number(&mut json, command_duration_ms);
        json.append(",\"command_info\":");
        append_command_info(&mut json, &self.command_info);
        json.append(",\"command_output\":");
        append_json_string(&mut json, output.as_str());
        json.append("}");
        proof {
            assert(json@ =~= spec_run_command_json(
                now@,
                command_duration_ms as int,
                self@,
                spec_combined_output(spec_command_result(*command_result)),
            ));
        }
        build_json_response(json)
    }

    /// Turns one execution outcome into the response, stamping it with the
    /// current wall-clock time.
    pub fn handle_command_result(
        &self,
        command_result: Result<CommandOutput, String>,
        command_duration_ms: u128,
    ) -> (r: HttpResponse)
        ensures
            exists|now: Seq<char>|
                r@ == spec_run_command_response(
                    now,
                    command_duration_ms as int,
                    self@,
                    spec_combined_output(spec_command_result(command_result)),
                ),
    {
        let now = current_time_string();
        let r = self.build_run_command_response(&now, command_duration_ms, &command_result);
        proof {
            assert(exists|n: Seq<char>|
                r@ == spec_run_command_response(
                    n,
                    command_duration_ms as int,
                    self@,
                    spec_combined_output(spec_command_result(command_result)),
                )) by {
                assert(r@ == spec_run_command_response(
                    now@,
                    command_duration_ms as int,
                    self@,
                    spec_combined_output(spec_command_result(command_result)),
                ));
            }
        }
        r
    }
}

/// The command routes: the list endpoint under `commands`, and one
/// `commands/<id>` endpoint per configured command.
pub fn create_routes(
    command_configuration: &crate::config::CommandConfiguration,
) -> (r: Vec<(String, crate::handlers::RequestHandler)>)
    ensures
        r@.len() == 1 + command_configuration@.commands.len(),
        r@[0].0@ == "commands"@,
        r@[0].1 matches crate::handlers::RequestHandler::AllCommands(h) && h@ == spec_commands_json(
            command_configuration@.commands,
        ),
        forall|i: int|
            0 <= i < command_configuration@.commands.len() ==> {
                &&& (#[trigger] r@[i + 1]).0@ == "commands/"@
                    + command_configuration@.commands[i].id
                &&& r@[i + 1].1 matches crate::handlers::RequestHandler::RunCommand(h) && h@
                    == command_configuration@.commands[i]
            },
{
    let commands = command_configuration.commands();
    let mut routes: Vec<(String, crate::handlers::RequestHandler)> = Vec::new();
    routes.push((
        "commands".to_owned(),
        crate::handlers::RequestHandler::AllCommands(AllCommandsHandler::new(commands)),
    ));
    let n = commands.len();
    let mut i: usize = 0;
    while i < n
        invariant
            0 <= i <= n,
            n == commands@.len(),
            commands.deep_view() == command_configuration@.commands,
            commands.deep_view().len() == n,
            forall|j: int| 0 <= j < n ==> #[trigger] commands.deep_view()[j] == commands@[j]@,
            routes@.len() == 1 + i,
            routes@[0].0@ == "commands"@,
            routes@[0].1 matches crate::handlers::RequestHandler::AllCommands(h) && h@
                == spec_commands_json(command_configuration@.commands),
            forall|j: int|
                0 <= j < i ==> {
                    &&& (#[trigger] routes@[j + 1]).0@ == "commands/"@
                        + command_configuration@.commands[j].id
                    &&& routes@[j + 1].1 matches crate::handlers::RequestHandler::RunCommand(h)
                        && h@ == command_configuration@.commands[j]
                },
        decreases n - i,
    {
        let mut path: String = "commands/".to_owned();
        path.append(commands[i].id().as_str());
        proof {
            assert(path@ =~= "commands/"@ + command_configuration@.commands[i as int].id);
        }
        routes.push((
            path,
            crate::handlers::RequestHandler::RunCommand(RunCommandHandler::new(
                commands[i].clone(),
            )),
        ));
        i = i + 1;
    }
    routes
}

} // verus!
