//! What the fake servers say, whatever they are asked.

use vstd::prelude::*;
use crate::fakes::{
    count_in, directory_label, document_uri, first_line_range, formatting_result, hover_result,
    introduction, opened_diagnostics, oxfmt_reply, tsgo_reply, FakeOxfmtView, FakeTsgoView, ReplyView,
};
use crate::json::{json_get, json_int, JsonView};
use crate::json_laws::{members_are_found_by_name, whole_numbers_have_their_value};
use crate::lsp::{MessageView, NotificationView, RequestView, ResponseView};
use crate::path::PathView;
use crate::text::{decimal, decimal_reads_back, digits_value, trimmed, u64_of};

verus! {

/// A fake is labelled by the directory that it runs in.
pub proof fn fakes_are_labelled_by_their_directory(cwd: PathView, name: Seq<char>)
    ensures
        cwd.parts.len() > 0 && cwd.parts.last() == name && name != crate::path::here() && name
            != crate::path::up() ==> directory_label(cwd) == name,
        cwd.parts.len() == 0 ==> directory_label(cwd) == "unknown"@,
{
}

/// The document that a message is about is the one that it names, and none where it names none.
pub proof fn documents_are_named_by_their_uri(
    params: JsonView,
    document: JsonView,
    uri: Seq<char>,
)
    ensures
        json_get(params, "textDocument"@) == Some(document) && json_get(document, "uri"@) == Some(
            JsonView::Text(uri),
        ) ==> document_uri(params) == uri,
        json_get(params, "textDocument"@) is None ==> document_uri(params).len() == 0,
{
}

/// A fake introduces itself by its name, with the one ability that it has and with whole documents
/// synchronised.
pub proof fn fakes_introduce_themselves(ability: Seq<char>, name: Seq<char>)
    ensures
        ({
            let told = introduction(ability, name);
            let able = json_get(told, "capabilities"@)->0;
            let info = json_get(told, "serverInfo"@)->0;
            &&& json_get(able, ability) == Some(JsonView::Bool(true))
            &&& ability != "textDocumentSync"@ ==> (json_get(
                able,
                "textDocumentSync"@,
            ) matches Some(JsonView::Number(sync)) && sync.integer == Some(1i64))
            &&& json_get(info, "name"@) == Some(JsonView::Text(name))
            &&& json_get(info, "version"@) == Some(JsonView::Text("0.1.0"@))
        }),
{
    reveal_strlit("capabilities");
    reveal_strlit("serverInfo");
    reveal_strlit("name");
    reveal_strlit("version");
    assert("capabilities"@.len() == 12 && "serverInfo"@.len() == 10);
    assert("name"@.len() == 4 && "version"@.len() == 7);
    let told = introduction(ability, name)->Object_0;
    members_are_found_by_name(told, 0);
    members_are_found_by_name(told, 1);
    let able = told[0].1->Object_0;
    members_are_found_by_name(able, 0);
    if ability != "textDocumentSync"@ {
        members_are_found_by_name(able, 1);
    }
    let info = told[1].1->Object_0;
    members_are_found_by_name(info, 0);
    members_are_found_by_name(info, 1);
    whole_numbers_have_their_value(1);
}

/// The fake compiler answers each request that it knows under the request's id: it introduces itself or fails
/// as it is told to, grants a shutdown, and tells at which label it is asked about which document.
pub proof fn the_fake_compiler_answers(fake: FakeTsgoView, request: RequestView)
    ensures
        ({
            let reply = tsgo_reply(fake, MessageView::Request(request));
            let answer = reply->Send_0->Response_0;
            &&& request.method == "initialize"@ && fake.init_error is None ==> reply == ReplyView::Send(
                MessageView::Response(
                    ResponseView {
                        id: request.id,
                        result: Some(
                            introduction("hoverProvider"@, "fake-tsgo:"@ + fake.label),
                        ),
                        error: None,
                    },
                ),
            )
            &&& request.method == "initialize"@ && fake.init_error is Some ==> reply is Send
                && reply->Send_0 is Response && answer.id == request.id && answer.result is None
                && answer.error is Some && answer.error->0.code == -32803
                && answer.error->0.message == fake.init_error->0
            &&& request.method == "shutdown"@ ==> reply == ReplyView::Send(
                MessageView::Response(
                    ResponseView { id: request.id, result: Some(JsonView::Null), error: None },
                ),
            )
            &&& request.method == "textDocument/hover"@ && fake.exit_on_hover ==> reply is Stop
            &&& request.method == "textDocument/hover"@ && !fake.exit_on_hover
                && !fake.empty_hover_response ==> reply == ReplyView::Send(
                MessageView::Response(
                    ResponseView {
                        id: request.id,
                        result: Some(
                            hover_result(fake.label, document_uri(request.params)),
                        ),
                        error: None,
                    },
                ),
            )
            &&& request.method == "textDocument/hover"@ && !fake.exit_on_hover
                && fake.empty_hover_response ==> reply == ReplyView::Send(
                MessageView::Response(ResponseView { id: request.id, result: None, error: None }),
            )
        }),
{
    reveal_strlit("initialize");
    reveal_strlit("shutdown");
    reveal_strlit("textDocument/hover");
    assert("initialize"@.len() == 10 && "shutdown"@.len() == 8 && "textDocument/hover"@.len() == 18);
}

/// The fake compiler ends when it is told to, and reports a problem of each document that is opened.
pub proof fn the_fake_compiler_reacts(fake: FakeTsgoView, notification: NotificationView)
    ensures
        notification.method == "exit"@ ==> tsgo_reply(fake, MessageView::Notification(notification))
            is Stop,
        notification.method == "textDocument/didOpen"@ ==> tsgo_reply(
            fake,
            MessageView::Notification(notification),
        ) == ReplyView::Send(
            MessageView::Notification(
                opened_diagnostics(fake.label, document_uri(notification.params)),
            ),
        ),
{
    reveal_strlit("exit");
    reveal_strlit("textDocument/didOpen");
    assert("exit"@.len() == 4 && "textDocument/didOpen"@.len() == 20);
}

/// What the fakes tell holds their label and the document.
pub proof fn fakes_tell_their_label_and_the_document(label: Seq<char>, uri: Seq<char>)
    ensures
        ({
            let contents = json_get(hover_result(label, uri), "contents"@)->0;
            let edit = formatting_result(label, uri)->Array_0[0];
            let params = opened_diagnostics(label, uri).params;
            let problems = json_get(params, "diagnostics"@)->0;
            &&& json_get(contents, "value"@) == Some(
                JsonView::Text("session="@ + label + ";uri="@ + uri),
            )
            &&& json_get(contents, "kind"@) == Some(JsonView::Text("plaintext"@))
            &&& formatting_result(label, uri)->Array_0.len() == 1
            &&& json_get(edit, "newText"@) == Some(
                JsonView::Text("formatted-session="@ + label + ";uri="@ + uri + "\n"@),
            )
            &&& json_get(edit, "range"@) == Some(first_line_range(0))
            &&& opened_diagnostics(label, uri).method == "textDocument/publishDiagnostics"@
            &&& json_get(params, "uri"@) == Some(JsonView::Text(uri))
            &&& problems is Array
            &&& problems->Array_0.len() == 1
            &&& json_get(problems->Array_0[0], "message"@) == Some(
                JsonView::Text("session="@ + label),
            )
            &&& json_get(problems->Array_0[0], "source"@) == Some(JsonView::Text("fake-tsgo"@))
            &&& json_get(problems->Array_0[0], "range"@) == Some(first_line_range(1))
        }),
{
    reveal_strlit("kind");
    reveal_strlit("value");
    reveal_strlit("range");
    reveal_strlit("newText");
    reveal_strlit("uri");
    reveal_strlit("diagnostics");
    reveal_strlit("severity");
    reveal_strlit("source");
    reveal_strlit("message");
    assert("kind"@.len() == 4 && "value"@.len() == 5 && "range"@.len() == 5 && "newText"@.len() == 7);
    assert("uri"@.len() == 3 && "diagnostics"@.len() == 11 && "severity"@.len() == 8);
    assert("source"@.len() == 6 && "message"@.len() == 7);
    let hover = hover_result(label, uri)->Object_0;
    members_are_found_by_name(hover, 0);
    let contents = hover[0].1->Object_0;
    members_are_found_by_name(contents, 0);
    members_are_found_by_name(contents, 1);
    let edit = formatting_result(label, uri)->Array_0[0]->Object_0;
    members_are_found_by_name(edit, 0);
    members_are_found_by_name(edit, 1);
    let params = opened_diagnostics(label, uri).params->Object_0;
    members_are_found_by_name(params, 0);
    members_are_found_by_name(params, 1);
    let shown = params[1].1->Array_0[0]->Object_0;
    members_are_found_by_name(shown, 0);
    members_are_found_by_name(shown, 1);
    members_are_found_by_name(shown, 2);
    members_are_found_by_name(shown, 3);
}

/// The fake formatter answers each request under its id: it introduces itself, after a pause where it is told
/// to, grants a shutdown, formats, and refuses all else.
pub proof fn the_fake_formatter_answers(fake: FakeOxfmtView, request: RequestView)
    ensures
        ({
            let reply = oxfmt_reply(fake, MessageView::Request(request));
            let hello = MessageView::Response(
                ResponseView {
                    id: request.id,
                    result: Some(
                        introduction(
                            "documentFormattingProvider"@,
                            "fake-oxfmt:"@ + fake.label,
                        ),
                    ),
                    error: None,
                },
            );
            let answer = reply->Send_0->Response_0;
            &&& request.method == "initialize"@ && fake.init_delay_ms is None ==> reply
                == ReplyView::Send(hello)
            &&& request.method == "initialize"@ && fake.init_delay_ms is Some ==> reply
                == ReplyView::SendAfter(fake.init_delay_ms->0, hello)
            &&& request.method == "shutdown"@ ==> reply == ReplyView::Send(
                MessageView::Response(
                    ResponseView { id: request.id, result: Some(JsonView::Null), error: None },
                ),
            )
            &&& request.method == "textDocument/formatting"@ ==> reply == ReplyView::Send(
                MessageView::Response(
                    ResponseView {
                        id: request.id,
                        result: Some(
                            formatting_result(fake.label, document_uri(request.params)),
                        ),
                        error: None,
                    },
                ),
            )
            &&& request.method != "initialize"@ && request.method != "shutdown"@ && request.method
                != "textDocument/formatting"@ ==> reply is Send && reply->Send_0 is Response
                && answer.id == request.id && answer.result is None && answer.error is Some
                && answer.error->0.code == -32601
        }),
{
    reveal_strlit("initialize");
    reveal_strlit("shutdown");
    reveal_strlit("textDocument/formatting");
    assert("initialize"@.len() == 10 && "shutdown"@.len() == 8 && "textDocument/formatting"@.len()
        == 23);
}

/// The fake formatter ends when it is told to, and counts the client's `initialized` where it is told to
/// count.
pub proof fn the_fake_formatter_reacts(fake: FakeOxfmtView, notification: NotificationView)
    ensures
        notification.method == "exit"@ ==> oxfmt_reply(fake, MessageView::Notification(notification))
            is Stop,
        notification.method == "initialized"@ ==> (oxfmt_reply(
            fake,
            MessageView::Notification(notification),
        ) is CountInitialized <==> fake.counts_initialized),
        notification.method == "initialized"@ && !fake.counts_initialized ==> oxfmt_reply(
            fake,
            MessageView::Notification(notification),
        ) is Nothing,
{
    reveal_strlit("exit");
    reveal_strlit("initialized");
    assert("exit"@.len() == 4 && "initialized"@.len() == 11);
}

/// A count that has been kept is read as the number that was kept, and what is no number as none.
pub proof fn counts_are_read_back(text: Seq<char>, n: u64)
    ensures
        u64_of(trimmed(text)) == Some(n) ==> count_in(Some(text)) == n,
        u64_of(trimmed(text)) is None ==> count_in(Some(text)) == 0,
        count_in(None) == 0,
        digits_value(decimal(n as nat)) == n,
{
    decimal_reads_back(n as nat);
}

/// The ranges that the fakes tell lie in the first line, from its start.
pub proof fn fakes_speak_of_the_first_line(end: u32)
    ensures
        ({
            let range = first_line_range(end);
            let from = json_get(range, "start"@)->0;
            let to = json_get(range, "end"@)->0;
            &&& json_get(from, "line"@) == Some(json_int(0))
            &&& json_get(from, "character"@) == Some(json_int(0))
            &&& json_get(to, "line"@) == Some(json_int(0))
            &&& json_get(to, "character"@) == Some(json_int(end))
        }),
{
    reveal_strlit("start");
    reveal_strlit("end");
    reveal_strlit("line");
    reveal_strlit("character");
    assert("start"@.len() == 5 && "end"@.len() == 3 && "line"@.len() == 4 && "character"@.len() == 9);
    let range = first_line_range(end)->Object_0;
    members_are_found_by_name(range, 0);
    members_are_found_by_name(range, 1);
    let from = range[0].1->Object_0;
    members_are_found_by_name(from, 0);
    members_are_found_by_name(from, 1);
    let to = range[1].1->Object_0;
    members_are_found_by_name(to, 0);
    members_are_found_by_name(to, 1);
}

} // verus!
