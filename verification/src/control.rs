//! The control protocol: recorder states, record commands, and the text in
//! which clients and the daemon exchange them.

use crate::text;
use std::str::FromStr;
use vstd::prelude::*;
use vstd::string::StringExecFns;
use vstd::utf8::*;

verus! {

/// What the recorder is doing.
#[derive(Debug, Clone, Copy, PartialEq, Eq, Structural)]
pub enum RecorderState {
    Inactive,
    Recording,
    Processing,
}

/// Per-recording language and translation overrides carried by the commands
/// `Start` and `Toggle`.
#[derive(Debug, Clone, PartialEq, Eq)]
pub struct TranscribeOptions {
    /// BCP-47 or whisper language code (such as "fr", "en" or "auto").
    /// `None` means the configured default.
    pub lang: Option<String>,
    /// Whether the transcript is translated to English.
    /// `None` means the configured default.
    pub translate: Option<bool>,
}

/// What a client can ask of the daemon.
#[derive(Debug, Clone, PartialEq, Eq)]
pub enum RecordCommand {
    Start(TranscribeOptions),
    Stop,
    Toggle(TranscribeOptions),
    Status,
}

/// What the daemon answers: the state it is in, or why it refused.
pub type ControlReply = Result<RecorderState, String>;

/// Why a text of the protocol was not understood, or what the daemon refused.
#[derive(Debug, Clone, PartialEq, Eq)]
pub enum ControlError {
    /// The text, without the white space around it, names no recorder state.
    UnknownState(String),
    /// The verb names no command.
    UnknownCommand(String),
    /// The daemon answered with this message.
    Refused(String),
    /// The response, without the white space around it, is neither an
    /// acknowledgement nor a refusal.
    Malformed(String),
}

/// The mathematical value of [`TranscribeOptions`].
pub struct OptionsView {
    pub lang: Option<Seq<char>>,
    pub translate: Option<bool>,
}

/// The mathematical value of a [`RecordCommand`].
pub enum CommandView {
    Start(OptionsView),
    Stop,
    Toggle(OptionsView),
    Status,
}

/// The mathematical value of a [`ControlError`].
pub enum ControlErrorView {
    UnknownState(Seq<char>),
    UnknownCommand(Seq<char>),
    Refused(Seq<char>),
    Malformed(Seq<char>),
}

impl View for RecorderState {
    type V = RecorderState;

    open spec fn view(&self) -> RecorderState {
        *self
    }
}

impl View for TranscribeOptions {
    type V = OptionsView;

    open spec fn view(&self) -> OptionsView {
        OptionsView {
            lang: match self.lang {
                Some(lang) => Some(lang@),
                None => None,
            },
            translate: self.translate,
        }
    }
}

impl View for RecordCommand {
    type V = CommandView;

    open spec fn view(&self) -> CommandView {
        match *self {
            RecordCommand::Start(opts) => CommandView::Start(opts@),
            RecordCommand::Stop => CommandView::Stop,
            RecordCommand::Toggle(opts) => CommandView::Toggle(opts@),
            RecordCommand::Status => CommandView::Status,
        }
    }
}

impl View for ControlError {
    type V = ControlErrorView;

    open spec fn view(&self) -> ControlErrorView {
        match *self {
            ControlError::UnknownState(s) => ControlErrorView::UnknownState(s@),
            ControlError::UnknownCommand(s) => ControlErrorView::UnknownCommand(s@),
            ControlError::Refused(s) => ControlErrorView::Refused(s@),
            ControlError::Malformed(s) => ControlErrorView::Malformed(s@),
        }
    }
}

/// The mathematical value of a result.
pub open spec fn outcome<T: View>(r: Result<T, ControlError>) -> Result<T::V, ControlErrorView> {
    match r {
        Ok(value) => Ok(value@),
        Err(error) => Err(error@),
    }
}

/// The mathematical value of a reply, or of its absence.
pub open spec fn reply_view(reply: Option<ControlReply>) -> Option<Result<RecorderState, Seq<char>>> {
    match reply {
        Some(Ok(state)) => Some(Ok(state)),
        Some(Err(message)) => Some(Err(message@)),
        None => None,
    }
}

/// The options that leave everything at its configured default.
pub open spec fn no_options() -> OptionsView {
    OptionsView { lang: None, translate: None }
}

/// The word that names a recorder state.
pub open spec fn state_name(state: RecorderState) -> Seq<char> {
    match state {
        RecorderState::Inactive => "inactive"@,
        RecorderState::Recording => "recording"@,
        RecorderState::Processing => "processing"@,
    }
}

/// The recorder state that a text names, white space around it apart.
pub open spec fn parsed_state(s: Seq<char>) -> Result<RecorderState, ControlErrorView> {
    let name = text::trimmed(s);
    if name == state_name(RecorderState::Inactive) {
        Ok(RecorderState::Inactive)
    } else if name == state_name(RecorderState::Recording) {
        Ok(RecorderState::Recording)
    } else if name == state_name(RecorderState::Processing) {
        Ok(RecorderState::Processing)
    } else {
        Err(ControlErrorView::UnknownState(name))
    }
}

/// The text of options, as it follows the verb of a command.
pub open spec fn options_text(opts: OptionsView) -> Seq<char> {
    let lang = match opts.lang {
        Some(lang) => " lang="@ + lang,
        None => seq![],
    };
    let translate = match opts.translate {
        Some(true) => " translate"@,
        Some(false) => " no_translate"@,
        None => seq![],
    };
    lang + translate
}

/// The text of a command.
pub open spec fn command_text(command: CommandView) -> Seq<char> {
    match command {
        CommandView::Start(opts) => "start"@ + options_text(opts),
        CommandView::Stop => "stop"@,
        CommandView::Toggle(opts) => "toggle"@ + options_text(opts),
        CommandView::Status => "status"@,
    }
}

/// The language that the last of the words `lang=..` gives.
pub open spec fn last_lang(words: Seq<Seq<char>>) -> Option<Seq<char>>
    decreases words.len(),
{
    if words.len() == 0 {
        None
    } else if text::begins_with(words.last(), "lang="@) {
        Some(words.last().skip("lang="@.len() as int))
    } else {
        last_lang(words.drop_last())
    }
}

/// What the last of the words `translate` and `no_translate` says.
pub open spec fn last_translate(words: Seq<Seq<char>>) -> Option<bool>
    decreases words.len(),
{
    if words.len() == 0 {
        None
    } else if words.last() == "translate"@ {
        Some(true)
    } else if words.last() == "no_translate"@ {
        Some(false)
    } else {
        last_translate(words.drop_last())
    }
}

/// The options that a text gives: of several words on one matter the last
/// counts, and words that say nothing are passed over.
pub open spec fn parsed_options(s: Seq<char>) -> OptionsView {
    OptionsView {
        lang: last_lang(text::words(s)),
        translate: last_translate(text::words(s)),
    }
}

/// The verb of a command text: what stands before its first space.
pub open spec fn verb(s: Seq<char>) -> Seq<char> {
    s.take(text::leading_until(s, ' ') as int)
}

/// The options text of a command text: what stands after its first space.
pub open spec fn arguments(s: Seq<char>) -> Seq<char> {
    let n = text::leading_until(s, ' ');
    if n < s.len() {
        s.skip(n as int + 1)
    } else {
        seq![]
    }
}

/// The command that a text gives.
pub open spec fn parsed_command(s: Seq<char>) -> Result<CommandView, ControlErrorView> {
    if verb(s) == "start"@ {
        Ok(CommandView::Start(parsed_options(arguments(s))))
    } else if verb(s) == "stop"@ {
        Ok(CommandView::Stop)
    } else if verb(s) == "toggle"@ {
        Ok(CommandView::Toggle(parsed_options(arguments(s))))
    } else if verb(s) == "status"@ {
        Ok(CommandView::Status)
    } else {
        Err(ControlErrorView::UnknownCommand(verb(s)))
    }
}

/// The response to a client, `None` standing for a handler that gave no reply.
pub open spec fn response_text(reply: Option<Result<RecorderState, Seq<char>>>) -> Seq<char> {
    match reply {
        Some(Ok(state)) => "ok "@ + state_name(state) + "\n"@,
        Some(Err(message)) => "err "@ + message + "\n"@,
        None => "err control handler dropped response\n"@,
    }
}

/// What a client makes of a response.
pub open spec fn parsed_response(s: Seq<char>) -> Result<RecorderState, ControlErrorView> {
    let body = text::trimmed(s);
    if text::begins_with(body, "ok "@) {
        parsed_state(body.skip("ok "@.len() as int))
    } else if text::begins_with(body, "err "@) {
        Err(ControlErrorView::Refused(body.skip("err "@.len() as int)))
    } else {
        Err(ControlErrorView::Malformed(body))
    }
}

/// What is said of an error.
pub open spec fn error_text(error: ControlErrorView) -> Seq<char> {
    match error {
        ControlErrorView::UnknownState(s) => "Unknown recorder state: "@ + s,
        ControlErrorView::UnknownCommand(s) => "Unknown record command: "@ + s,
        ControlErrorView::Refused(s) => s,
        ControlErrorView::Malformed(s) => "Malformed control response: "@ + s,
    }
}

impl RecorderState {
    /// The word that names the state.
    pub fn as_str(self) -> (r: &'static str)
        ensures
            r@ == state_name(self),
    {
        match self {
            Self::Inactive => "inactive",
            Self::Recording => "recording",
            Self::Processing => "processing",
        }
    }

    /// The word that names the state, as an owned string.
    pub fn to_string(&self) -> (r: String)
        ensures
            r@ == state_name(*self),
    {
        self.as_str().to_string()
    }
}

impl FromStr for RecorderState {
    type Err = ControlError;

    fn from_str(value: &str) -> (r: Result<Self, ControlError>)
        ensures
            outcome(r) == parsed_state(value@),
    {
        let name = text::trim(value);
        if text::same(name, "inactive") {
            Ok(Self::Inactive)
        } else if text::same(name, "recording") {
            Ok(Self::Recording)
        } else if text::same(name, "processing") {
            Ok(Self::Processing)
        } else {
            Err(ControlError::UnknownState(name.to_string()))
        }
    }
}

impl Default for TranscribeOptions {
    fn default() -> (r: Self)
        ensures
            r@ == no_options(),
    {
        TranscribeOptions { lang: None, translate: None }
    }
}

impl TranscribeOptions {
    /// The options as they follow the verb of a command.
    pub fn to_string(&self) -> (r: String)
        ensures
            r@ == options_text(self@),
    {
        let mut out = String::new();
        if let Some(lang) = &self.lang {
            out.append(" lang=");
            out.append(lang.as_str());
        }
        if let Some(translate) = self.translate {
            if translate {
                out.append(" translate");
            } else {
                out.append(" no_translate");
            }
        }
        assert(out@ =~= options_text(self@));
        out
    }
}

impl FromStr for TranscribeOptions {
    type Err = ControlError;

    fn from_str(value: &str) -> (r: Result<Self, ControlError>)
        ensures
            outcome(r) == Ok::<OptionsView, ControlErrorView>(parsed_options(value@)),
    {
        let toks = text::split_whitespace(value);
        let ghost words = text::words(value@);
        let mut opts = TranscribeOptions { lang: None, translate: None };
        let mut i: usize = 0;
        while i < toks.len()
            invariant
                i <= toks@.len(),
                words == text::views(toks@),
                opts@.lang == last_lang(words.take(i as int)),
                opts@.translate == last_translate(words.take(i as int)),
            decreases toks@.len() - i,
        {
            let tok = toks[i];
            proof {
                assert(words.take(i + 1).drop_last() =~= words.take(i as int));
                assert(words.take(i + 1).last() == tok@);
                reveal_strlit("lang=");
                reveal_strlit("translate");
                reveal_strlit("no_translate");
            }
            if let Some(lang) = text::strip_prefix(tok, "lang=") {
                assert(tok@[0] == tok@.take(5)[0]);
                opts.lang = Some(lang.to_string());
            } else if text::same(tok, "translate") {
                opts.translate = Some(true);
            } else if text::same(tok, "no_translate") {
                opts.translate = Some(false);
            }
            i += 1;
        }
        assert(words.take(i as int) =~= words);
        Ok(opts)
    }
}

impl RecordCommand {
    /// A start that leaves all options at their defaults.
    pub fn start_default() -> (r: Self)
        ensures
            r@ == CommandView::Start(no_options()),
    {
        Self::Start(TranscribeOptions::default())
    }

    /// A toggle that leaves all options at their defaults.
    pub fn toggle_default() -> (r: Self)
        ensures
            r@ == CommandView::Toggle(no_options()),
    {
        Self::Toggle(TranscribeOptions::default())
    }

    /// The text of the command.
    pub fn to_string(&self) -> (r: String)
        ensures
            r@ == command_text(self@),
    {
        let mut out = String::new();
        match self {
            Self::Start(opts) => {
                out.append("start");
                out.append(opts.to_string().as_str());
            },
            Self::Stop => {
                out.append("stop");
            },
            Self::Toggle(opts) => {
                out.append("toggle");
                out.append(opts.to_string().as_str());
            },
            Self::Status => {
                out.append("status");
            },
        }
        assert(out@ =~= command_text(self@));
        out
    }
}

impl FromStr for RecordCommand {
    type Err = ControlError;

    fn from_str(value: &str) -> (r: Result<Self, ControlError>)
        ensures
            outcome(r) == parsed_command(value@),
    {
        proof {
            text::lemma_leading_until(value@, ' ');
            reveal_strlit("");
            assert(value@.take(value@.len() as int) =~= value@);
            assert(""@ =~= Seq::<char>::empty());
        }
        let (verb, opts) = match text::split_once(value, ' ') {
            Some((verb, opts)) => (verb, opts),
            None => (value, ""),
        };
        if text::same(verb, "start") {
            Ok(Self::Start(TranscribeOptions::from_str(opts)?))
        } else if text::same(verb, "stop") {
            Ok(Self::Stop)
        } else if text::same(verb, "toggle") {
            Ok(Self::Toggle(TranscribeOptions::from_str(opts)?))
        } else if text::same(verb, "status") {
            Ok(Self::Status)
        } else {
            Err(ControlError::UnknownCommand(verb.to_string()))
        }
    }
}

impl ControlError {
    /// What is said of the error.
    pub fn to_string(&self) -> (r: String)
        ensures
            r@ == error_text(self@),
    {
        let mut out = String::new();
        match self {
            Self::UnknownState(s) => {
                out.append("Unknown recorder state: ");
                out.append(s.as_str());
            },
            Self::UnknownCommand(s) => {
                out.append("Unknown record command: ");
                out.append(s.as_str());
            },
            Self::Refused(s) => {
                out.append(s.as_str());
            },
            Self::Malformed(s) => {
                out.append("Malformed control response: ");
                out.append(s.as_str());
            },
        }
        assert(out@ =~= error_text(self@));
        out
    }
}

/// Reads the response that the daemon sent.
pub fn parse_response(raw: &str) -> (r: Result<RecorderState, ControlError>)
    ensures
        outcome(r) == parsed_response(raw@),
{
    let body = text::trim(raw);
    if let Some(state) = text::strip_prefix(body, "ok ") {
        return RecorderState::from_str(state);
    }
    if let Some(message) = text::strip_prefix(body, "err ") {
        return Err(ControlError::Refused(message.to_string()));
    }
    Err(ControlError::Malformed(body.to_string()))
}

/// Writes the response to a client, `None` standing for a handler that gave no
/// reply.
pub fn format_response(reply: &Option<ControlReply>) -> (r: String)
    ensures
        r@ == response_text(reply_view(*reply)),
{
    let mut out = String::new();
    match reply {
        Some(Ok(state)) => {
            out.append("ok ");
            out.append(state.as_str());
            out.append("\n");
        },
        Some(Err(message)) => {
            out.append("err ");
            out.append(message.as_str());
            out.append("\n");
        },
        None => {
            out.append("err control handler dropped response\n");
        },
    }
    assert(out@ =~= response_text(reply_view(*reply)));
    out
}

/// The bytes that a client sends to ask for `command`.
pub fn encode_request(command: &RecordCommand) -> (r: Vec<u8>)
    ensures
        r@ == encode_utf8(command_text(command@)),
{
    vstd::slice::slice_to_vec(command.to_string().as_str().as_bytes())
}

/// The command that the bytes of a request ask for, white space around it
/// apart.
pub fn decode_request(request: &[u8]) -> (r: Result<RecordCommand, ControlError>)
    ensures
        outcome(r) == parsed_command(text::trimmed(text::lossy_text(request@))),
{
    let received = text::from_utf8_lossy(request);
    RecordCommand::from_str(text::trim(received.as_str()))
}

/// The bytes that the daemon sends back to a client.
pub fn encode_response(reply: &Option<ControlReply>) -> (r: Vec<u8>)
    ensures
        r@ == encode_utf8(response_text(reply_view(*reply))),
{
    vstd::slice::slice_to_vec(format_response(reply).as_str().as_bytes())
}

/// What the bytes that the daemon sent back say.
pub fn decode_response(response: &[u8]) -> (r: Result<RecorderState, ControlError>)
    ensures
        outcome(r) == parsed_response(text::lossy_text(response@)),
{
    parse_response(text::from_utf8_lossy(response).as_str())
}

} // verus!
