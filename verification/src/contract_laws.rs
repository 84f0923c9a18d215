//! What holds of what functions give back, in terms of what they are given.

use vstd::prelude::*;

use crate::authorization::{Permission, ToolCallAuthorization, ToolCallEventStream};
use crate::cli;
use crate::cli::SocketSource;
use crate::completion::{CompletionRequest, OfferedTool};
use crate::json;
use crate::json::Json;
use crate::mcp_bridge;
use crate::message;
use crate::message::Message;
use crate::project_snapshot;
use crate::project_snapshot::{Repository, WorktreeSnapshot};
use crate::remote_server::agent_bridge::ClientToAgentMessage;
use crate::remote_server::auth::TokenManager;
use crate::remote_server::cloudflared::{CloudflaredTunnel, TunnelWait};
use crate::remote_server::server;
use crate::remote_server::server::{Refusal, ServerMode};
use crate::remote_server::websocket;
use crate::remote_server::websocket::{ClientAction, ClientMessage, Frame, FrameAction};
use crate::segment_file::PersistStep;
use crate::text;
use crate::thread::Thread;
use crate::tools::analyze_images_tool;
use crate::tools::analyze_images_tool::{
    AnalyzeError, AnalyzeImagesInput, AnalyzeImagesTool, ImageError, ImagePlace,
};
use crate::tools::context_compaction;
use crate::tools::context_compaction::{Execution, ExecutionError};
use crate::tools::detect_binaries_tool;
use crate::tools::detect_binaries_tool::{
    DetectBinariesTool, DetectBinariesToolInput, ProbeError, ProbeStep,
};
use crate::tools::enhanced_terminal_tool;
use crate::tools::enhanced_terminal_tool::{
    DirectoryError, EnhancedTerminalTool, EnhancedTerminalToolInput, Root,
};
use crate::tools::project_info_tool::{
    ProjectInfoAction, ProjectInfoChange, ProjectInfoError, ProjectInfoTool, ProjectInfoToolInput,
};
use crate::turn::{CompletionIntent, TurnError};

verus! {

// ---------------------------------------------------------------------------
// Who may do what
// ---------------------------------------------------------------------------

/// A device is let in exactly where it shows the token that devices must show; else it is told whether
/// it showed none or another.
pub proof fn only_the_token_lets_in(
    token: Option<String>,
    manager: TokenManager,
    r: Result<(), Refusal>,
)
    requires
        call_ensures(server::let_in, (&token, &manager), r),
    ensures
        r is Ok <==> token is Some && token->0@ == manager.current(),
        r == Err::<(), Refusal>(Refusal::MissingToken) <==> token is None,
        r == Err::<(), Refusal>(Refusal::InvalidToken) <==> token is Some && token->0@
            != manager.current(),
{
}

/// A server for the internet listens on the machine itself alone, since the tunnel reaches it there.
pub proof fn servers_behind_a_tunnel_are_local(mode: ServerMode, r: String)
    requires
        call_ensures(server::bind_ip, (mode,), r),
    ensures
        mode == ServerMode::Internet ==> r@ == "127.0.0.1"@,
        mode == ServerMode::Local ==> r@ == "0.0.0.0"@,
{
}

/// The user is asked before a tool runs, unless the settings allow all tools; and is asked about that
/// call.
pub proof fn the_user_is_asked_first(
    stream: ToolCallEventStream,
    title: String,
    always: bool,
    r: Option<ToolCallAuthorization>,
)
    requires
        call_ensures(ToolCallEventStream::authorize, (&stream, title, always), r),
    ensures
        r is Some <==> !always,
        r is Some ==> r->0.tool_call_id@ == stream.tool_use_id@ && r->0.title@ == title@,
{
}

/// What the user answers is what is done.
pub proof fn the_answer_of_the_user_counts(
    stream: ToolCallEventStream,
    option: &str,
    r: Permission,
)
    requires
        call_ensures(ToolCallEventStream::answered, (&stream, option), r),
    ensures
        r == Permission::Denied <==> option@ != "allow"@ && option@ != "always_allow"@,
        r == Permission::GrantedAndKept <==> option@ == "always_allow"@ && stream.can_keep,
{
    reveal_strlit("allow");
    reveal_strlit("always_allow");
}

// ---------------------------------------------------------------------------
// Devices
// ---------------------------------------------------------------------------

/// What a device says goes to the agent as it is; a ping is answered.
pub proof fn what_devices_say_reaches_the_agent(m: ClientMessage, r: ClientAction)
    requires
        call_ensures(websocket::handle_client_message, (m,), r),
    ensures
        m is Ping <==> r is Reply,
        m matches ClientMessage::Chat { content } ==> (r matches ClientAction::ToAgent(
            ClientToAgentMessage::Chat { content: c },
        ) && c@ == content@),
        m is GetHistory ==> r == ClientAction::ToAgent(ClientToAgentMessage::GetHistory),
        m is Cancel ==> r == ClientAction::ToAgent(ClientToAgentMessage::Cancel),
{
}

/// What is no text is not read; a connection that is closed, or fails, ends.
pub proof fn other_frames_are_not_read(frame: Frame, r: FrameAction)
    requires
        call_ensures(websocket::handle_frame, (&frame,), r),
    ensures
        r is Disconnect <==> frame is Close || frame is Failed,
        r is Ignore <==> frame is Binary || frame is Ping || frame is Pong,
        frame is Text <==> r is Client || r is Invalid,
{
}

/// The address of a tunnel is waited for thirty looks long, and no longer than until there is one.
pub proof fn tunnels_are_waited_for(tunnel: CloudflaredTunnel, looks: usize, r: TunnelWait)
    requires
        call_ensures(CloudflaredTunnel::wait, (&tunnel, looks), r),
    ensures
        tunnel.public_url is Some ==> (r matches TunnelWait::Ready(u) && u@
            == tunnel.public_url->0@),
        tunnel.public_url is None && looks < 29 ==> r is Wait,
        tunnel.public_url is None && looks >= 29 ==> r is TimedOut,
{
}

// ---------------------------------------------------------------------------
// Threads
// ---------------------------------------------------------------------------

/// Segments are written where there are some; where there are none, a file that is there is removed.
pub proof fn segments_are_written_where_there_are_some(t: Thread, file_exists: bool, r: PersistStep)
    requires
        call_ensures(Thread::persist_memory_segments, (&t, file_exists), r),
    ensures
        r == PersistStep::Write <==> t@.segments.len() > 0,
        r == PersistStep::Remove <==> t@.segments.len() == 0 && file_exists,
{
}

/// A thread has its title, or the usual one.
pub proof fn threads_have_a_title(t: Thread, r: String)
    requires
        call_ensures(Thread::title, (&t,), r),
    ensures
        t@.title is Some ==> r@ == t@.title->0,
        t@.title is None ==> r@ == "New Thread"@,
{
}

/// The last message is the one that is being written, or else the last of the messages.
pub proof fn the_last_message_is_given(t: Thread, r: Option<Message>)
    requires
        call_ensures(Thread::last_message, (&t,), r),
    ensures
        r is None <==> t@.pending is None && t@.messages.len() == 0,
        t@.pending is Some ==> r is Some && r->0@ == t@.pending->0,
        t@.pending is None && t@.messages.len() > 0 ==> r is Some && r->0@
            == t@.messages[t@.messages.len() - 1],
{
}

/// A request to a model is that of its thread and its prompt, in the mode of the thread; tools are offered
/// only while a turn runs. Without a model there is none.
pub proof fn requests_belong_to_their_thread(
    t: Thread,
    intent: CompletionIntent,
    system_prompt: &str,
    tools: Vec<OfferedTool>,
    r: Result<CompletionRequest, TurnError>,
)
    requires
        call_ensures(Thread::build_completion_request, (&t, intent, system_prompt, &tools), r),
    ensures
        r is Ok <==> t@.model is Some,
        r is Ok ==> {
            let request = r->Ok_0;
            &&& request.thread_id@ == t@.id
            &&& request.prompt_id@ == t@.prompt_id
            &&& request.intent == intent
            &&& request.mode == t@.mode
            &&& request.thinking_allowed
            &&& !t@.running_turn ==> request.tools@.len() == 0
            &&& message::request_views(request.messages@)
                == crate::completion::request_messages(t@, system_prompt@)
        },
        r is Err ==> r->Err_0 == TurnError::NoModel,
{
    if r is Ok && !t@.running_turn {
        assert(crate::completion::tool_views(r->Ok_0.tools@).len() == r->Ok_0.tools@.len());
    }
}

/// What is kept of a directory is its path, and what is kept of its repository, where it is there and a
/// repository holds it.
pub proof fn directories_are_kept(
    path: Option<String>,
    repository: Option<Repository>,
    r: WorktreeSnapshot,
)
    requires
        call_ensures(project_snapshot::worktree_snapshot, (path, repository), r),
    ensures
        path is Some ==> r@.worktree_path == path->0@,
        path is None ==> r@.worktree_path.len() == 0 && r@.git_state is None,
        repository is None ==> r@.git_state is None,
        path is Some && repository is Some ==> r@.git_state == Some(
            project_snapshot::git_view(repository->0),
        ),
{
}

// ---------------------------------------------------------------------------
// Tools
// ---------------------------------------------------------------------------

/// A tool is run exactly where the thread is there and has it, and it is not the tool that calls others;
/// with the arguments that are given, or none.
pub proof fn tools_of_the_thread_are_run(
    t: Thread,
    name: &str,
    args: Option<Json>,
    r: Result<Execution, ExecutionError>,
)
    requires
        call_ensures(context_compaction::plan_execution, (Some(&t), name, args), r),
    ensures
        r is Ok <==> name@ != "call_context_tool"@ && t@.tools.contains(name@),
        r is Ok && args is Some ==> r->Ok_0.input@ == args->0@,
        r is Ok && args is None ==> r->Ok_0.input@ == json::JsonView::Object(Seq::empty()),
        r is Ok ==> r->Ok_0.run_id@ == name@ + "_exec"@,
{
}

/// A command is run at the only root where none is named; where there are several, one must be named. An
/// absolute path must exist, and the name of a root stands for its path.
pub proof fn commands_are_run_where_they_are_meant(
    cwd: &str,
    roots: Vec<Root>,
    existing: Vec<String>,
    r: Result<Option<String>, DirectoryError>,
)
    requires
        call_ensures(
            enhanced_terminal_tool::resolve_working_directory,
            (cwd, &roots, &existing),
            r,
        ),
    ensures
        (cwd@ == "."@ || cwd@.len() == 0) && roots@.len() == 1 ==> (r matches Ok(Some(p)) && p@
            == roots@[0].path@),
        (cwd@ == "."@ || cwd@.len() == 0) && roots@.len() > 1 ==> r is Err,
        (cwd@ == "."@ || cwd@.len() == 0) && roots@.len() == 0 ==> r matches Ok(None),
        cwd@ != "."@ && text::starts_with(cwd@, "/"@) ==> (r is Ok <==> text::views(
            existing@,
        ).contains(cwd@)),
        r is Ok && cwd@ != "."@ && text::starts_with(cwd@, "/"@) ==> (r->Ok_0 matches Some(p) && p@
            == cwd@),
{
    reveal_strlit("/");
}

/// As much of the output is kept as is asked for; else more of a command with the rights of the
/// administrator.
pub proof fn output_is_limited(input: EnhancedTerminalToolInput, r: u64)
    requires
        call_ensures(EnhancedTerminalTool::output_limit, (&input,), r),
    ensures
        input.output_limit is Some ==> r == input.output_limit->0,
        input.output_limit is None && input.use_sudo ==> r == 262144,
        input.output_limit is None && !input.use_sudo ==> r == 16384,
{
}

/// Images are analysed exactly where something is asked about some images, and the model sees them; the
/// first of these that is not so is told.
pub proof fn images_are_analysed_where_they_can_be(
    input: AnalyzeImagesInput,
    vision: Option<bool>,
    r: Result<(), AnalyzeError>,
)
    requires
        call_ensures(AnalyzeImagesTool::check_input, (&input, vision), r),
    ensures
        r is Ok <==> text::trim(input.prompt@).len() > 0 && input.image_paths@.len() > 0 && vision
            == Some(true),
        r is Err && text::trim(input.prompt@).len() == 0 ==> r->Err_0 is EmptyPrompt,
        r is Err && text::trim(input.prompt@).len() > 0 && input.image_paths@.len() == 0
            ==> r->Err_0 is NoImages,
{
}

/// An image is looked for where its path leads: on the web, from the root, below the home directory, or
/// below the current one.
pub proof fn images_are_where_their_path_leads(
    path: &str,
    home: Option<String>,
    current: Option<String>,
    r: Result<ImagePlace, ImageError>,
)
    requires
        call_ensures(analyze_images_tool::image_place, (path, &home, &current), r),
    ensures
        analyze_images_tool::is_url(path@) ==> (r matches Ok(ImagePlace::Url(u)) && u@ == path@),
        r matches Ok(ImagePlace::Url(u)) ==> analyze_images_tool::is_url(path@),
        !analyze_images_tool::is_url(path@) && text::starts_with(path@, "/"@) ==> (r matches Ok(
            ImagePlace::File(f),
        ) && f@ == path@),
        !analyze_images_tool::is_url(path@) && text::starts_with(path@, "~/"@) && home is Some ==> (
        r matches Ok(ImagePlace::File(f)) && f@ == crate::paths::joined(home->0@, path@.skip(2))),
{
}

/// A file is read as an image exactly where it is there, is a file, and has the extension of an image.
pub proof fn only_images_are_read(
    path: &str,
    resolved: &str,
    exists_there: bool,
    is_file: bool,
    r: Result<(), ImageError>,
)
    requires
        call_ensures(
            analyze_images_tool::check_image_file,
            (path, resolved, exists_there, is_file),
            r,
        ),
    ensures
        r is Ok <==> exists_there && is_file && analyze_images_tool::has_image_extension(resolved@),
        !exists_there ==> r->Err_0 is NotFound,
        exists_there && !is_file ==> r->Err_0 is NotAFile,
{
}

/// A program is asked for its version in another way until it tells one, the time is over, or there is
/// no other way.
pub proof fn versions_are_asked_for_three_times(
    attempt: usize,
    result: Result<String, ProbeError>,
    r: ProbeStep,
)
    requires
        attempt < 3,
        call_ensures(detect_binaries_tool::after_attempt, (attempt, &result), r),
    ensures
        r is Found <==> result is Ok,
        r is Found ==> r->Found_0@ == result->Ok_0@,
        r is Attempt ==> r->Attempt_0 == attempt + 1 && attempt < 2,
        attempt == 2 && result is Err ==> r is Failed,
{
    assert(detect_binaries_tool::version_arguments().len() == 3);
}

/// At least one program is probed at a time.
pub proof fn something_is_probed(input: DetectBinariesToolInput, r: usize)
    requires
        call_ensures(DetectBinariesTool::concurrency, (&input,), r),
    ensures
        r >= 1,
        input.max_concurrency >= 1 ==> r == input.max_concurrency,
{
}

/// The notes on a project are kept under the names of its roots.
pub proof fn notes_are_kept_by_project(roots: Vec<String>, r: String)
    requires
        call_ensures(ProjectInfoTool::get_project_key, (&roots,), r),
    ensures
        roots@.len() == 0 ==> r@ == "default"@,
        roots@.len() == 1 ==> r@ == roots@[0]@,
        roots@.len() > 1 ==> r@ == text::join(text::views(roots@), ";"@),
{
    if roots@.len() == 1 {
        assert(text::views(roots@)[0] == roots@[0]@);
    }
}

/// Notes are changed only by what is asked: what is read stays, what is set or appended must be given.
pub proof fn notes_are_changed_as_asked(
    input: ProjectInfoToolInput,
    existing: Option<String>,
    r: Result<(ProjectInfoChange, String), ProjectInfoError>,
)
    requires
        call_ensures(ProjectInfoTool::run, (&input, &existing), r),
    ensures
        r is Err <==> input.content is None && (input.action == ProjectInfoAction::Append
            || input.action == ProjectInfoAction::Overwrite),
        input.action == ProjectInfoAction::Read ==> r->Ok_0.0 is Keep,
        input.action == ProjectInfoAction::Clear ==> r->Ok_0.0 is Delete,
        (input.action == ProjectInfoAction::Read && existing is Some) ==> r->Ok_0.1@
            == existing->0@,
        (input.action == ProjectInfoAction::Overwrite && input.content is Some) ==> (r->Ok_0.0
            matches ProjectInfoChange::Save(t) && t@ == input.content->0@),
        (input.action == ProjectInfoAction::Append && input.content is Some && existing is None)
            ==> (r->Ok_0.0 matches ProjectInfoChange::Save(t) && t@ == input.content->0@),
        (input.action == ProjectInfoAction::Append && input.content is Some && existing is Some)
            ==> (r->Ok_0.0 matches ProjectInfoChange::Save(t) && t@ == existing->0@ + "\n\n"@
            + input.content->0@),
{
}

// ---------------------------------------------------------------------------
// The command line
// ---------------------------------------------------------------------------

/// The path of the socket is the one that is given, or else in the file that is given, or else in the
/// usual one.
pub proof fn sockets_are_found(direct: Option<String>, file: Option<String>, r: SocketSource)
    requires
        call_ensures(cli::socket_source, (&direct, &file), r),
    ensures
        direct is Some ==> (r matches SocketSource::Path(p) && p@ == direct->0@),
        direct is None && file is Some ==> (r matches SocketSource::File(f) && f@ == file->0@),
        direct is None && file is None ==> (r matches SocketSource::File(f) && f@
            == ".zed/embedded_compaction_mcp_socket"@),
{
}

/// What a tool gave back is handed on as it is, with a text to show where it is one.
pub proof fn outputs_are_handed_on(output: Json, r: mcp_bridge::InvocationResult)
    requires
        call_ensures(mcp_bridge::invocation_result, (output,), r),
    ensures
        r.output@ == output@,
        r.display is Some <==> output@ is Text,
        output@ matches json::JsonView::Text(t) ==> r.display->0@ == t,
{
}

/// The version of a program is the first line that it wrote, without the blanks around it: as output, or
/// else as an error. There is none exactly where that line says nothing.
pub proof fn versions_are_first_lines(
    success: bool,
    stdout: &str,
    stderr: &str,
    r: Result<String, ProbeError>,
)
    requires
        call_ensures(detect_binaries_tool::version_line, (success, stdout, stderr), r),
    ensures
        ({
            let lines = text::lines(
                if stdout@.len() > 0 {
                    stdout@
                } else {
                    stderr@
                },
            );
            &&& r is Ok ==> lines.len() > 0 && r->Ok_0@ == text::trim(lines[0]) && r->Ok_0@.len() > 0
            &&& r is Err ==> lines.len() == 0 || text::trim(lines[0]).len() == 0
        }),
{
    if stdout@.len() == 0 && stderr@.len() == 0 {
        crate::text_laws::a_line_is_its_own_line(stderr@);
    }
}

} // verus!
