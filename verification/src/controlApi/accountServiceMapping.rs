//! Mapping the pages of the account service under the control origin.

use crate::controlApi::applicationBodyDecoder::contentCoding::copyBytes;
use crate::controlApi::headerFields::{
    headerFields, listFields, rawViews, FieldView, RawField,
};
use crate::text::{concatText, copyText, equalText, startsWith, startsWithText};
use vstd::prelude::*;

verus! {

/// The largest request body that is mapped: 16 MiB.
pub const maximumMappedRequestBodyBytes: usize = 16_777_216;

/// Headers that belong to one hop or to the browser's own origin.
pub open spec fn isHopHeader(name: Seq<char>) -> bool {
    ||| name == "connection"@
    ||| name == "keep-alive"@
    ||| name == "proxy-authenticate"@
    ||| name == "proxy-authorization"@
    ||| name == "te"@
    ||| name == "trailer"@
    ||| name == "transfer-encoding"@
    ||| name == "upgrade"@
    ||| name == "host"@
    ||| name == "origin"@
    ||| name == "referer"@
}

/// Whether a header goes on to the other side; names are in lower case. Cookies do.
pub fn shouldForwardHeader(headerName: &str) -> (result: bool)
    ensures
        result == !isHopHeader(headerName@),
{
    !(equalText(headerName, "connection") || equalText(headerName, "keep-alive") || equalText(
        headerName,
        "proxy-authenticate",
    ) || equalText(headerName, "proxy-authorization") || equalText(headerName, "te") || equalText(
        headerName,
        "trailer",
    ) || equalText(headerName, "transfer-encoding") || equalText(headerName, "upgrade")
        || equalText(headerName, "host") || equalText(headerName, "origin") || equalText(
        headerName,
        "referer",
    ))
}

/// The fields that go on to the other side, in their order.
pub open spec fn forwardedFields(fields: Seq<FieldView>) -> Seq<FieldView>
    decreases fields.len(),
{
    if fields.len() == 0 {
        Seq::empty()
    } else {
        let before = forwardedFields(fields.drop_last());
        if isHopHeader(fields.last().0) {
            before
        } else {
            before.push(fields.last())
        }
    }
}

/// The fields of a message that go on to the other side.
pub fn forwardHeaders(headers: &http::HeaderMap<http::HeaderValue>) -> (result: Vec<RawField>)
    ensures
        rawViews(result@) == forwardedFields(headerFields(*headers)),
{
    keepForwarded(&listFields(headers))
}

/// The fields that go on to the other side.
pub fn keepForwarded(fields: &Vec<RawField>) -> (result: Vec<RawField>)
    ensures
        rawViews(result@) == forwardedFields(rawViews(fields@)),
{
    let ghost all = rawViews(fields@);
    let mut kept: Vec<RawField> = Vec::new();
    let mut i: usize = 0;
    assert(all.take(0).len() == 0);
    assert(rawViews(kept@) == forwardedFields(all.take(0)));
    while i < fields.len()
        invariant
            i <= fields.len(),
            all == rawViews(fields@),
            rawViews(kept@) == forwardedFields(all.take(i as int)),
        decreases fields.len() - i,
    {
        let field = &fields[i];
        assert(all.take(i + 1).drop_last() == all.take(i as int));
        assert(all.take(i + 1).last() == (field.name@, field.value@));
        if shouldForwardHeader(field.name.as_str()) {
            let ghost before = kept@;
            kept.push(
                RawField { name: copyText(field.name.as_str()), value: copyBytes(&field.value) },
            );
            assert(rawViews(kept@) == rawViews(before).push((field.name@, field.value@)));
        }
        i += 1;
    }
    assert(all.take(i as int) == all);
    kept
}

proof fn lemmaCookieNames()
    ensures
        !isHopHeader("cookie"@),
        !isHopHeader("set-cookie"@),
{
    reveal_strlit("cookie");
    reveal_strlit("set-cookie");
    reveal_strlit("connection");
    reveal_strlit("keep-alive");
    reveal_strlit("proxy-authenticate");
    reveal_strlit("proxy-authorization");
    reveal_strlit("te");
    reveal_strlit("trailer");
    reveal_strlit("transfer-encoding");
    reveal_strlit("upgrade");
    reveal_strlit("host");
    reveal_strlit("origin");
    reveal_strlit("referer");
    assert("cookie"@[0] != "origin"@[0]);
    assert("cookie"@.len() == 6 && "connection"@.len() == 10 && "keep-alive"@.len() == 10
        && "proxy-authenticate"@.len() == 18 && "proxy-authorization"@.len() == 19 && "te"@.len()
        == 2 && "trailer"@.len() == 7 && "transfer-encoding"@.len() == 17 && "upgrade"@.len() == 7
        && "host"@.len() == 4 && "referer"@.len() == 7);
    assert("set-cookie"@[0] != "connection"@[0]);
    assert("set-cookie"@[0] != "keep-alive"@[0]);
}

/// Cookies go on in both directions, nothing that belongs to one hop does, and all else goes on too.
pub proof fn lawCookiesGoOn(fields: Seq<FieldView>)
    ensures
        !isHopHeader("cookie"@),
        !isHopHeader("set-cookie"@),
        forall|i: int|
            0 <= i < forwardedFields(fields).len() ==> !isHopHeader(
                (#[trigger] forwardedFields(fields)[i]).0,
            ),
        forall|field: FieldView| #[trigger]
            fields.contains(field) && !isHopHeader(field.0) ==> forwardedFields(fields).contains(
                field,
            ),
    decreases fields.len(),
{
    lemmaCookieNames();
    if fields.len() > 0 {
        let before = fields.drop_last();
        lawCookiesGoOn(before);
        assert forall|field: FieldView| #[trigger] fields.contains(field) && !isHopHeader(
            field.0,
        ) implies forwardedFields(fields).contains(field) by {
            let i = choose|i: int| 0 <= i < fields.len() && fields[i] == field;
            if i < before.len() {
                assert(before[i] == field);
                assert(before.contains(field));
                let k = choose|k: int|
                    0 <= k < forwardedFields(before).len() && forwardedFields(before)[k] == field;
                assert(forwardedFields(fields)[k] == field);
            } else {
                assert(forwardedFields(fields).last() == field);
            }
        }
    }
}

/// A request that cannot be mapped: its status and its message.
#[derive(Debug)]
pub struct MappingError {
    pub status: u16,
    pub message: String,
}

/// The upstream address of a mapped request. The whole path is kept, prefix included; a request
/// without a path goes to the prefix itself. `endpoint` is where the account service is reached,
/// or why it is not.
pub fn forwardMappedRequest(
    endpoint: Result<String, String>,
    pathAndQuery: Option<String>,
    mappedPrefix: &str,
) -> (result: Result<String, MappingError>)
    ensures
        match endpoint {
            Err(detail) => result matches Err(error) && error.status == 503 && error.message@
                == detail@,
            Ok(base) => {
                let path = match pathAndQuery {
                    Some(text) => text@,
                    None => mappedPrefix@,
                };
                if startsWith(path, mappedPrefix@) {
                    result matches Ok(url) && url@ == base@ + path
                } else {
                    result matches Err(error) && error.status == 400 && error.message@
                        == "账号管理映射路径无效"@
                }
            },
        },
{
    let base = match endpoint {
        Ok(base) => base,
        Err(detail) => {
            return Err(MappingError { status: 503, message: detail });
        },
    };
    let path = match pathAndQuery {
        Some(text) => text,
        None => copyText(mappedPrefix),
    };
    if !startsWithText(path.as_str(), mappedPrefix) {
        return Err(
            MappingError { status: 400, message: copyText("账号管理映射路径无效") },
        );
    }
    Ok(concatText(base.as_str(), path.as_str()))
}

/// The steps of a mapped request that may fail once its address is known.
#[derive(Clone, Copy, Debug, PartialEq, Eq, Structural)]
pub enum MappingStep {
    ReadRequest,
    CreateClient,
    Send,
    ReadResponse,
    BuildResponse,
}

/// The message that introduces a failed step.
pub open spec fn mappingLabel(step: MappingStep) -> Seq<char> {
    match step {
        MappingStep::ReadRequest => "读取账号管理请求正文失败："@,
        MappingStep::CreateClient => "创建账号管理映射客户端失败："@,
        MappingStep::Send => "连接账号管理服务失败："@,
        MappingStep::ReadResponse => "读取账号管理响应失败："@,
        MappingStep::BuildResponse => "构造账号管理响应失败："@,
    }
}

/// Answers a failed step: a request that is too large is the client's fault, all else the
/// gateway's.
pub fn mappingFailure(step: MappingStep, detail: &str) -> (result: MappingError)
    ensures
        result.status == if step == MappingStep::ReadRequest { 413u16 } else { 502u16 },
        result.message@ == mappingLabel(step) + detail@,
{
    let label = match step {
        MappingStep::ReadRequest => "读取账号管理请求正文失败：",
        MappingStep::CreateClient => "创建账号管理映射客户端失败：",
        MappingStep::Send => "连接账号管理服务失败：",
        MappingStep::ReadResponse => "读取账号管理响应失败：",
        MappingStep::BuildResponse => "构造账号管理响应失败：",
    };
    MappingError {
        status: match step {
            MappingStep::ReadRequest => 413,
            _ => 502,
        },
        message: concatText(label, detail),
    }
}

/// Fields go on as they are, in their order, but for those that belong to one connection alone and those that tell
/// where a page was opened from.
pub proof fn lawOtherFieldsGoOn(fields: Seq<FieldView>, field: FieldView, name: Seq<char>)
    ensures
        forwardedFields(Seq::empty()).len() == 0,
        !isHopHeader(field.0) ==> forwardedFields(fields.push(field)) == forwardedFields(
            fields,
        ).push(field),
        isHopHeader(field.0) ==> forwardedFields(fields.push(field)) == forwardedFields(fields),
        isHopHeader(name) <==> seq![
            "connection"@,
            "keep-alive"@,
            "proxy-authenticate"@,
            "proxy-authorization"@,
            "te"@,
            "trailer"@,
            "transfer-encoding"@,
            "upgrade"@,
            "host"@,
            "origin"@,
            "referer"@,
        ].contains(name),
{
    assert(fields.push(field).drop_last() =~= fields);
    let names = seq![
        "connection"@,
        "keep-alive"@,
        "proxy-authenticate"@,
        "proxy-authorization"@,
        "te"@,
        "trailer"@,
        "transfer-encoding"@,
        "upgrade"@,
        "host"@,
        "origin"@,
        "referer"@,
    ];
    assert(names[0] == "connection"@ && names[1] == "keep-alive"@ && names[2]
        == "proxy-authenticate"@ && names[3] == "proxy-authorization"@ && names[4] == "te"@
        && names[5] == "trailer"@ && names[6] == "transfer-encoding"@ && names[7] == "upgrade"@
        && names[8] == "host"@ && names[9] == "origin"@ && names[10] == "referer"@);
}

/// Each step of a mapped request tells its own failure.
pub proof fn lawMappingFailureNamesItsStep()
    ensures
        mappingLabel(MappingStep::ReadRequest) == "读取账号管理请求正文失败："@,
        mappingLabel(MappingStep::CreateClient) == "创建账号管理映射客户端失败："@,
        mappingLabel(MappingStep::Send) == "连接账号管理服务失败："@,
        mappingLabel(MappingStep::ReadResponse) == "读取账号管理响应失败："@,
        mappingLabel(MappingStep::BuildResponse) == "构造账号管理响应失败："@,
{
}

} // verus!
