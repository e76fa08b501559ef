//! A structural check of HTML: whether tags are closed in the order in which they were opened.

use crate::controlApi::protocolControl::validation::{
    issueViews, validationIssue, IssueView, ValidationIssue, ValidationSeverity,
};
use crate::text::{
    asciiLowerText, asciiLowered, charsOf, equalText, findChar, indexOf, isAsciiAlphanumeric,
    isAsciiAlphanumericChar, isWhitespace, lawTrimmingTakesOuterBlanks, lemmaIndexOf, textOf,
    textOfRange, trimText, trimmed,
};
use vstd::prelude::*;

verus! {

// ---------------------------------------------------------------------------
// Positions
// ---------------------------------------------------------------------------

/// How many line breaks a text holds.
pub open spec fn lineBreaks(text: Seq<char>) -> nat
    decreases text.len(),
{
    if text.len() == 0 {
        0
    } else {
        lineBreaks(text.drop_last()) + if text.last() == '\n' {
            1nat
        } else {
            0
        }
    }
}

/// How many characters follow the last line break of a text.
pub open spec fn lastLineLength(text: Seq<char>) -> nat
    decreases text.len(),
{
    if text.len() == 0 || text.last() == '\n' {
        0
    } else {
        lastLineLength(text.drop_last()) + 1
    }
}

/// The line and the column of a character, counted from one.
pub open spec fn placeOf(source: Seq<char>, index: int) -> (nat, nat) {
    (lineBreaks(source.take(index)) + 1, lastLineLength(source.take(index)) + 1)
}

/// The line and the column of a character, counted from one.
pub fn lineAndColumn(source: &Vec<char>, index: usize) -> (result: (usize, usize))
    requires
        index < source.len(),
    ensures
        (result.0 as nat, result.1 as nat) == placeOf(source@, index as int),
{
    let mut line: usize = 1;
    let mut column: usize = 1;
    let mut i: usize = 0;
    assert(source@.take(0).len() == 0);
    while i < index
        invariant
            i <= index < source.len(),
            line == lineBreaks(source@.take(i as int)) + 1,
            column == lastLineLength(source@.take(i as int)) + 1,
            line <= i + 1,
            column <= i + 1,
        decreases index - i,
    {
        assert(source@.take(i + 1).drop_last() == source@.take(i as int));
        if source[i] == '\n' {
            line += 1;
            column = 1;
        } else {
            column += 1;
        }
        i += 1;
    }
    (line, column)
}

// ---------------------------------------------------------------------------
// Tags
// ---------------------------------------------------------------------------

/// The white space of ASCII.
pub open spec fn isAsciiSpace(c: char) -> bool {
    c == ' ' || c == '\t' || c == '\n' || c == '\r' || c as u32 == 12
}

fn isAsciiSpaceChar(c: char) -> (result: bool)
    ensures
        result == isAsciiSpace(c),
{
    c == ' ' || c == '\t' || c == '\n' || c == '\r' || c as u32 == 12
}

/// The characters of a tag's name.
pub open spec fn isHtmlNameChar(c: char) -> bool {
    isAsciiAlphanumeric(c) || c == '-' || c == ':'
}

/// A text without a run of a character at its start.
pub open spec fn withoutLeading(text: Seq<char>, c: char) -> Seq<char>
    decreases text.len(),
{
    if text.len() > 0 && text[0] == c {
        withoutLeading(text.drop_first(), c)
    } else {
        text
    }
}

/// A text without a run of a character at its end.
pub open spec fn withoutTrailing(text: Seq<char>, c: char) -> Seq<char>
    decreases text.len(),
{
    if text.len() > 0 && text.last() == c {
        withoutTrailing(text.drop_last(), c)
    } else {
        text
    }
}

/// A text without the white space of ASCII at its start.
pub open spec fn withoutLeadingSpace(text: Seq<char>) -> Seq<char>
    decreases text.len(),
{
    if text.len() > 0 && isAsciiSpace(text[0]) {
        withoutLeadingSpace(text.drop_first())
    } else {
        text
    }
}

/// The part of a text before its first white space of ASCII.
pub open spec fn beforeSpace(text: Seq<char>) -> Seq<char>
    decreases text.len(),
{
    if text.len() == 0 || isAsciiSpace(text[0]) {
        Seq::empty()
    } else {
        seq![text[0]] + beforeSpace(text.drop_first())
    }
}

/// The first word of a text.
pub open spec fn firstWord(text: Seq<char>) -> Seq<char> {
    beforeSpace(withoutLeadingSpace(text))
}

/// The elements that have no closing tag.
pub open spec fn isVoidElement(name: Seq<char>) -> bool {
    ||| name == "area"@
    ||| name == "base"@
    ||| name == "br"@
    ||| name == "col"@
    ||| name == "embed"@
    ||| name == "hr"@
    ||| name == "img"@
    ||| name == "input"@
    ||| name == "link"@
    ||| name == "meta"@
    ||| name == "param"@
    ||| name == "source"@
    ||| name == "track"@
    ||| name == "wbr"@
}

/// Whether an element has no closing tag.
pub fn isHtmlVoidElement(name: &str) -> (result: bool)
    ensures
        result == isVoidElement(name@),
{
    equalText(name, "area") || equalText(name, "base") || equalText(name, "br") || equalText(
        name,
        "col",
    ) || equalText(name, "embed") || equalText(name, "hr") || equalText(name, "img")
        || equalText(name, "input") || equalText(name, "link") || equalText(name, "meta")
        || equalText(name, "param") || equalText(name, "source") || equalText(name, "track")
        || equalText(name, "wbr")
}

/// What stands between an opening and a closing angle bracket.
pub enum TagView {
    Open(Seq<char>),
    Close(Seq<char>),
}

/// The name in a tag.
pub open spec fn tagName(token: Seq<char>) -> Seq<char> {
    withoutTrailing(firstWord(withoutLeading(token, '/')), '/')
}

/// The tag that a trimmed token writes. Declarations, comments, names with other characters, tags
/// that close themselves and elements without a closing tag count for nothing.
pub open spec fn tagOf(token: Seq<char>) -> Option<TagView> {
    if token.len() == 0 || token[0] == '!' || token[0] == '?' {
        None
    } else {
        let name = tagName(token);
        if name.len() == 0 || exists|i: int| 0 <= i < name.len() && !isHtmlNameChar(
            #[trigger] name[i],
        ) {
            None
        } else if token[0] == '/' {
            Some(TagView::Close(asciiLowered(name)))
        } else if token.last() == '/' || isVoidElement(asciiLowered(name)) {
            None
        } else {
            Some(TagView::Open(asciiLowered(name)))
        }
    }
}

/// A tag, as read.
#[derive(Debug)]
pub enum HtmlTag {
    Open(String),
    Close(String),
}

/// The value of an optional tag.
pub open spec fn tagView(tag: Option<HtmlTag>) -> Option<TagView> {
    match tag {
        Some(HtmlTag::Open(name)) => Some(TagView::Open(name@)),
        Some(HtmlTag::Close(name)) => Some(TagView::Close(name@)),
        None => None,
    }
}

/// The name in a tag.
fn readTagName(token: &Vec<char>) -> (result: Vec<char>)
    ensures
        result@ == tagName(token@),
{
    let mut from: usize = 0;
    assert(token@.skip(0) == token@);
    while from < token.len() && token[from] == '/'
        invariant
            from <= token.len(),
            withoutLeading(token@, '/') == withoutLeading(token@.skip(from as int), '/'),
        decreases token.len() - from,
    {
        assert(token@.skip(from as int).drop_first() == token@.skip(from + 1));
        from += 1;
    }
    let ghost plain = token@.skip(from as int);
    assert(withoutLeading(token@, '/') == plain);
    let mut start: usize = from;
    while start < token.len() && isAsciiSpaceChar(token[start])
        invariant
            from <= start <= token.len(),
            withoutLeadingSpace(plain) == withoutLeadingSpace(token@.skip(start as int)),
        decreases token.len() - start,
    {
        assert(token@.skip(start as int).drop_first() == token@.skip(start + 1));
        start += 1;
    }
    let ghost word = token@.skip(start as int);
    assert(withoutLeadingSpace(plain) == word);
    let mut name: Vec<char> = Vec::new();
    let mut end: usize = start;
    assert(name@ + beforeSpace(token@.skip(end as int)) == beforeSpace(word));
    while end < token.len() && !isAsciiSpaceChar(token[end])
        invariant
            start <= end <= token.len(),
            name@ + beforeSpace(token@.skip(end as int)) == beforeSpace(word),
        decreases token.len() - end,
    {
        let ghost rest = token@.skip(end as int);
        assert(rest.drop_first() == token@.skip(end + 1));
        let ghost before = name@;
        name.push(token[end]);
        assert(before + (seq![rest[0]] + beforeSpace(rest.drop_first())) == name@ + beforeSpace(
            rest.drop_first(),
        ));
        end += 1;
    }
    assert(beforeSpace(token@.skip(end as int)) == Seq::<char>::empty());
    assert(name@ == firstWord(plain));
    while name.len() > 0 && name[name.len() - 1] == '/'
        invariant
            withoutTrailing(name@, '/') == withoutTrailing(firstWord(plain), '/'),
        decreases name.len(),
    {
        let ghost before = name@;
        let _ = name.pop();
        assert(name@ == before.drop_last());
    }
    name
}

/// Reads the tag that a trimmed token writes.
fn readTag(token: &str) -> (result: Option<HtmlTag>)
    ensures
        tagView(result) == tagOf(token@),
{
    let chars = charsOf(token);
    if chars.len() == 0 || chars[0] == '!' || chars[0] == '?' {
        return None;
    }
    let name = readTagName(&chars);
    if name.len() == 0 {
        return None;
    }
    let mut i: usize = 0;
    while i < name.len()
        invariant
            i <= name.len(),
            name@ == tagName(token@),
            token@.len() > 0,
            token@[0] != '!' && token@[0] != '?',
            name@.len() > 0,
            forall|k: int| 0 <= k < i ==> isHtmlNameChar(#[trigger] name@[k]),
        decreases name.len() - i,
    {
        let c = name[i];
        if !(isAsciiAlphanumericChar(c) || c == '-' || c == ':') {
            assert(!isHtmlNameChar(name@[i as int]));
            return None;
        }
        i += 1;
    }
    let plain = textOf(&name);
    let lowered = asciiLowerText(plain.as_str());
    if chars[0] == '/' {
        Some(HtmlTag::Close(lowered))
    } else if chars[chars.len() - 1] == '/' || isHtmlVoidElement(lowered.as_str()) {
        None
    } else {
        Some(HtmlTag::Open(lowered))
    }
}

// ---------------------------------------------------------------------------
// Documents
// ---------------------------------------------------------------------------

/// What a document holds, with the places of the opening brackets.
pub enum TagEvent {
    Open(Seq<char>, int),
    Close(Seq<char>, int),
    Unterminated(int),
}

/// The tags of a document from a place on.
pub open spec fn tagEvents(source: Seq<char>, from: int) -> Seq<TagEvent>
    decreases source.len() - from,
{
    if from < 0 || from > source.len() {
        Seq::empty()
    } else {
        let start = from + indexOf(source.skip(from), '<');
        if start >= source.len() {
            Seq::empty()
        } else {
            let end = start + indexOf(source.skip(start), '>');
            if end >= source.len() {
                seq![TagEvent::Unterminated(start)]
            } else {
                proof {
                    lemmaIndexOf(source.skip(from), '<');
                    lemmaIndexOf(source.skip(start), '>');
                }
                let rest = tagEvents(source, end + 1);
                match tagOf(trimmed(source.subrange(start + 1, end))) {
                    Some(TagView::Open(name)) => seq![TagEvent::Open(name, start)] + rest,
                    Some(TagView::Close(name)) => seq![TagEvent::Close(name, start)] + rest,
                    None => rest,
                }
            }
        }
    }
}

/// A tag that is open: its name and its place.
pub type OpenTag = (Seq<char>, nat, nat);

/// What is known while a document is read.
pub struct HtmlState {
    pub stack: Seq<OpenTag>,
    pub issues: Seq<IssueView>,
}

/// A problem of a document at a place.
pub open spec fn htmlIssue(key: Seq<char>, line: nat, column: nat) -> IssueView {
    IssueView {
        severity: ValidationSeverity::Error,
        messageKey: key,
        line: Some(line as usize),
        column: Some(column as usize),
    }
}

/// What one tag does: an opening tag is remembered, a closing tag takes the last one back. A closing
/// tag that does not fit is reported with the tag it met, and nothing stays open.
pub open spec fn afterTag(source: Seq<char>, state: HtmlState, event: TagEvent) -> HtmlState {
    match event {
        TagEvent::Open(name, at) => HtmlState {
            stack: state.stack.push((name, placeOf(source, at).0, placeOf(source, at).1)),
            ..state
        },
        TagEvent::Close(name, at) => {
            let place = placeOf(source, at);
            if state.stack.len() == 0 {
                HtmlState {
                    issues: state.issues.push(
                        htmlIssue("validate.html.unexpectedClosingTag"@, place.0, place.1),
                    ),
                    ..state
                }
            } else if state.stack.last().0 == name {
                HtmlState { stack: state.stack.drop_last(), ..state }
            } else {
                let opened = state.stack.last();
                HtmlState {
                    stack: Seq::empty(),
                    issues: state.issues.push(
                        htmlIssue("validate.html.mismatchedTag"@, place.0, place.1),
                    ).push(htmlIssue("validate.html.openedHere"@, opened.1, opened.2)),
                }
            }
        },
        TagEvent::Unterminated(at) => HtmlState {
            issues: state.issues.push(
                htmlIssue(
                    "validate.html.unclosedTag"@,
                    placeOf(source, at).0,
                    placeOf(source, at).1,
                ),
            ),
            ..state
        },
    }
}

/// What all tags do, in order.
pub open spec fn afterTags(source: Seq<char>, state: HtmlState, events: Seq<TagEvent>) -> HtmlState
    decreases events.len(),
{
    if events.len() == 0 {
        state
    } else {
        afterTags(source, afterTag(source, state, events[0]), events.drop_first())
    }
}

/// The problems of tags that were never closed.
pub open spec fn unclosedIssues(stack: Seq<OpenTag>) -> Seq<IssueView> {
    stack.map_values(
        |opened: OpenTag| htmlIssue("validate.html.unclosedTag"@, opened.1, opened.2),
    )
}

/// The problems of a document.
pub open spec fn htmlIssues(source: Seq<char>) -> Seq<IssueView> {
    let start = HtmlState { stack: Seq::empty(), issues: Seq::empty() };
    let end = afterTags(source, start, tagEvents(source, 0));
    end.issues + unclosedIssues(end.stack)
}

struct OpenElement {
    name: String,
    line: usize,
    column: usize,
}

spec fn openViews(stack: Seq<OpenElement>) -> Seq<OpenTag> {
    stack.map_values(
        |opened: OpenElement| (opened.name@, opened.line as nat, opened.column as nat),
    )
}

/// Checks that tags are closed in the order in which they were opened.
pub fn validateHtmlWellFormed(text: &str) -> (result: Vec<ValidationIssue>)
    ensures
        issueViews(result@) == htmlIssues(text@),
{
    let source = charsOf(text);
    let ghost all = text@;
    let ghost start = HtmlState { stack: Seq::empty(), issues: Seq::empty() };
    let ghost outcome = afterTags(all, start, tagEvents(all, 0));
    let mut stack: Vec<OpenElement> = Vec::new();
    let mut issues: Vec<ValidationIssue> = Vec::new();
    let mut offset: usize = 0;
    let mut finished = false;
    assert(openViews(stack@) == start.stack);
    assert(issueViews(issues@) == start.issues);
    while !finished
        invariant
            offset <= source.len(),
            source@ == all,
            finished ==> outcome == (HtmlState {
                stack: openViews(stack@),
                issues: issueViews(issues@),
            }),
            !finished ==> outcome == afterTags(
                all,
                HtmlState { stack: openViews(stack@), issues: issueViews(issues@) },
                tagEvents(all, offset as int),
            ),
        decreases source.len() - offset, (if finished { 0int } else { 1int }),
    {
        let ghost state = HtmlState { stack: openViews(stack@), issues: issueViews(issues@) };
        let ghost events = tagEvents(all, offset as int);
        let begin: usize = findChar(&source, offset, '<');
        if begin >= source.len() {
            finished = true;
        } else {
            let end: usize = findChar(&source, begin, '>');
            let (line, column) = lineAndColumn(&source, begin);
            if end >= source.len() {
                let ghost before = issues@;
                issues.push(validationIssue("validate.html.unclosedTag", line, column));
                proof {
                    assert(events == seq![TagEvent::Unterminated(begin as int)]);
                    assert(events.drop_first() == Seq::<TagEvent>::empty());
                    assert(issueViews(issues@) == issueViews(before).push(
                        htmlIssue("validate.html.unclosedTag"@, line as nat, column as nat),
                    ));
                    assert(afterTags(all, afterTag(all, state, events[0]), events.drop_first())
                        == afterTag(all, state, events[0]));
                }
                finished = true;
            } else {
                proof {
                    lemmaIndexOf(all.skip(offset as int), '<');
                    lemmaIndexOf(all.skip(begin as int), '>');
                    assert(all.skip(begin as int)[0] == '<');
                }
                let raw = textOfRange(&source, begin + 1, end);
                let token = trimText(raw.as_str());
                let ghost rest = tagEvents(all, end + 1);
                offset = end + 1;
                match readTag(token.as_str()) {
                    None => {},
                    Some(HtmlTag::Open(name)) => {
                        let ghost before = stack@;
                        let ghost label = name@;
                        stack.push(OpenElement { name, line, column });
                        proof {
                            assert(events == seq![TagEvent::Open(label, begin as int)] + rest);
                            assert(events.drop_first() == rest);
                            assert(openViews(stack@) == openViews(before).push(
                                (label, line as nat, column as nat),
                            ));
                        }
                    },
                    Some(HtmlTag::Close(name)) => {
                        proof {
                            assert(events == seq![TagEvent::Close(name@, begin as int)] + rest);
                            assert(events.drop_first() == rest);
                        }
                        let ghost before = issues@;
                        let ghost open = stack@;
                        match stack.pop() {
                            Some(opened) => {
                                assert(openViews(stack@) == openViews(open).drop_last());
                                assert(openViews(open).last() == (
                                    opened.name@,
                                    opened.line as nat,
                                    opened.column as nat,
                                ));
                                if !equalText(opened.name.as_str(), name.as_str()) {
                                    issues.push(
                                        validationIssue("validate.html.mismatchedTag", line, column),
                                    );
                                    issues.push(
                                        validationIssue(
                                            "validate.html.openedHere",
                                            opened.line,
                                            opened.column,
                                        ),
                                    );
                                    stack = Vec::new();
                                    assert(openViews(stack@) == Seq::<OpenTag>::empty());
                                    assert(issueViews(issues@) == issueViews(before).push(
                                        htmlIssue(
                                            "validate.html.mismatchedTag"@,
                                            line as nat,
                                            column as nat,
                                        ),
                                    ).push(
                                        htmlIssue(
                                            "validate.html.openedHere"@,
                                            opened.line as nat,
                                            opened.column as nat,
                                        ),
                                    ));
                                }
                            },
                            None => {
                                issues.push(
                                    validationIssue(
                                        "validate.html.unexpectedClosingTag",
                                        line,
                                        column,
                                    ),
                                );
                                assert(issueViews(issues@) == issueViews(before).push(
                                    htmlIssue(
                                        "validate.html.unexpectedClosingTag"@,
                                        line as nat,
                                        column as nat,
                                    ),
                                ));
                            },
                        }
                    },
                }
            }
        }
    }
    let ghost found = issueViews(issues@);
    let ghost unclosed = unclosedIssues(openViews(stack@));
    let mut i: usize = 0;
    assert(found + unclosed.take(0) == found);
    while i < stack.len()
        invariant
            i <= stack.len(),
            unclosed == unclosedIssues(openViews(stack@)),
            issueViews(issues@) == found + unclosed.take(i as int),
        decreases stack.len() - i,
    {
        let ghost before = issues@;
        issues.push(
            validationIssue("validate.html.unclosedTag", stack[i].line, stack[i].column),
        );
        assert(unclosed[i as int] == htmlIssue(
            "validate.html.unclosedTag"@,
            stack@[i as int].line as nat,
            stack@[i as int].column as nat,
        ));
        assert(issueViews(issues@) == issueViews(before).push(unclosed[i as int]));
        i += 1;
        assert(issueViews(issues@) == found + unclosed.take(i as int));
    }
    assert(unclosed.take(i as int) == unclosed);
    issues
}

// ---------------------------------------------------------------------------
// Nesting
// ---------------------------------------------------------------------------

/// Whether tags leave nothing behind, whatever is open before them.
pub open spec fn isBalanced(source: Seq<char>, events: Seq<TagEvent>) -> bool {
    forall|state: HtmlState| #[trigger] afterTags(source, state, events) == state
}

proof fn lemmaTagsInTurn(
    source: Seq<char>,
    state: HtmlState,
    first: Seq<TagEvent>,
    second: Seq<TagEvent>,
)
    ensures
        afterTags(source, state, first + second) == afterTags(
            source,
            afterTags(source, state, first),
            second,
        ),
    decreases first.len(),
{
    if first.len() == 0 {
        assert(first + second == second);
    } else {
        lemmaTagsInTurn(source, afterTag(source, state, first[0]), first.drop_first(), second);
        assert((first + second).drop_first() == first.drop_first() + second);
    }
}

/// Elements beside each other and elements inside an element are accepted: nothing at all is
/// balanced, balanced parts in a row are, and so is a balanced part between an opening tag and the
/// closing tag of the same name.
pub proof fn lawNestingIsBalanced(
    source: Seq<char>,
    first: Seq<TagEvent>,
    second: Seq<TagEvent>,
    name: Seq<char>,
    opened: int,
    closed: int,
)
    ensures
        isBalanced(source, Seq::empty()),
        isBalanced(source, first) && isBalanced(source, second) ==> isBalanced(
            source,
            first + second,
        ),
        isBalanced(source, first) ==> isBalanced(
            source,
            seq![TagEvent::Open(name, opened)] + first + seq![TagEvent::Close(name, closed)],
        ),
{
    if isBalanced(source, first) && isBalanced(source, second) {
        assert forall|state: HtmlState| #[trigger] afterTags(source, state, first + second)
            == state by {
            lemmaTagsInTurn(source, state, first, second);
            assert(afterTags(source, state, first) == state);
            assert(afterTags(source, state, second) == state);
        }
    }
    if isBalanced(source, first) {
        let start = seq![TagEvent::Open(name, opened)];
        let end = seq![TagEvent::Close(name, closed)];
        assert forall|state: HtmlState| #[trigger] afterTags(source, state, start + first + end)
            == state by {
            let inside = afterTag(source, state, start[0]);
            lemmaTagsInTurn(source, state, start + first, end);
            lemmaTagsInTurn(source, state, start, first);
            assert(start.drop_first() == Seq::<TagEvent>::empty());
            assert(afterTags(source, inside, start.drop_first()) == inside);
            assert(afterTags(source, state, start) == inside);
            assert(afterTags(source, inside, first) == inside);
            assert(end.drop_first() == Seq::<TagEvent>::empty());
            let last = afterTag(source, inside, end[0]);
            assert(afterTags(source, last, end.drop_first()) == last);
            assert(last.stack == state.stack);
        }
    }
}

/// A balanced document has no problems.
pub proof fn lawBalancedDocumentHasNoIssues(source: Seq<char>)
    requires
        isBalanced(source, tagEvents(source, 0)),
    ensures
        htmlIssues(source).len() == 0,
{
    let start = HtmlState { stack: Seq::<OpenTag>::empty(), issues: Seq::<IssueView>::empty() };
    assert(afterTags(source, start, tagEvents(source, 0)) == start);
}

// ---------------------------------------------------------------------------
// Tags and documents as they are written
// ---------------------------------------------------------------------------

/// Whether a text is a name that an element can have: letters, digits, hyphens and colons.
pub open spec fn isElementName(name: Seq<char>) -> bool {
    &&& name.len() > 0
    &&& forall|i: int|
        0 <= i < name.len() ==> 'a' <= #[trigger] name[i] <= 'z' || 'A' <= name[i] <= 'Z' || '0'
            <= name[i] <= '9' || name[i] == '-' || name[i] == ':'
}

/// Whether a text can follow the name in an opening tag that does not close itself: nothing, or a blank
/// and more, up to a character that is neither a blank nor a slash.
pub open spec fn areAttributes(text: Seq<char>) -> bool {
    text.len() > 0 ==> (text[0] == ' ' || text[0] == '\t' || text[0] == '\n' || text[0] == '\r')
        && !isWhitespace(text.last()) && text.last() != '/' && !text.contains('>')
}

/// Whether a text holds only blanks.
pub open spec fn onlyBlanks(text: Seq<char>) -> bool {
    forall|i: int| 0 <= i < text.len() ==> #[trigger] text[i] == ' ' || text[i] == '\t' || text[i]
        == '\n' || text[i] == '\r'
}

/// The elements that need no closing tag are these, and no others.
pub proof fn lawElementsWithoutClosingTag(name: Seq<char>)
    ensures
        isVoidElement(name) <==> seq![
            "area"@,
            "base"@,
            "br"@,
            "col"@,
            "embed"@,
            "hr"@,
            "img"@,
            "input"@,
            "link"@,
            "meta"@,
            "param"@,
            "source"@,
            "track"@,
            "wbr"@,
        ].contains(name),
{
    let names = seq![
        "area"@,
        "base"@,
        "br"@,
        "col"@,
        "embed"@,
        "hr"@,
        "img"@,
        "input"@,
        "link"@,
        "meta"@,
        "param"@,
        "source"@,
        "track"@,
        "wbr"@,
    ];
    assert(names[0] == "area"@ && names[1] == "base"@ && names[2] == "br"@ && names[3] == "col"@
        && names[4] == "embed"@ && names[5] == "hr"@ && names[6] == "img"@ && names[7] == "input"@
        && names[8] == "link"@ && names[9] == "meta"@ && names[10] == "param"@ && names[11]
        == "source"@ && names[12] == "track"@ && names[13] == "wbr"@);
}

proof fn lemmaNameInTag(name: Seq<char>, rest: Seq<char>)
    requires
        isElementName(name),
        rest.len() > 0 ==> rest[0] == ' ' || rest[0] == '\t' || rest[0] == '\n' || rest[0] == '\r',
    ensures
        tagName(name + rest) == name,
        forall|i: int| 0 <= i < name.len() ==> isHtmlNameChar(#[trigger] name[i]),
        !isWhitespace(name[0]) && !isWhitespace(name.last()),
{
    let token = name + rest;
    assert(token[0] == name[0]);
    assert(withoutLeading(token, '/') == token);
    assert(withoutLeadingSpace(token) == token);
    lemmaWordBeforeSpace(name, rest);
    assert(name.last() == name[name.len() - 1]);
    assert(withoutTrailing(name, '/') == name);
}

proof fn lemmaWordBeforeSpace(word: Seq<char>, rest: Seq<char>)
    requires
        forall|i: int| 0 <= i < word.len() ==> !isAsciiSpace(#[trigger] word[i]),
        rest.len() > 0 ==> isAsciiSpace(rest[0]),
    ensures
        beforeSpace(word + rest) == word,
    decreases word.len(),
{
    if word.len() == 0 {
        assert(word + rest == rest);
    } else {
        let tail = word.drop_first();
        assert forall|i: int| 0 <= i < tail.len() implies !isAsciiSpace(#[trigger] tail[i]) by {
            assert(tail[i] == word[i + 1]);
        }
        lemmaWordBeforeSpace(tail, rest);
        assert(!isAsciiSpace(word[0]));
        assert((word + rest)[0] == word[0]);
        assert((word + rest).drop_first() == tail + rest);
        assert(seq![word[0]] + tail == word);
    }
}

/// The name of a tag is its first word, in lower case, and attributes never change it: a name with or
/// without attributes opens its element, unless the element has no closing tag.
pub proof fn lawAttributesDoNotChangeTheElement(name: Seq<char>, attributes: Seq<char>)
    requires
        isElementName(name),
        areAttributes(attributes),
    ensures
        tagOf(name + attributes) == if isVoidElement(asciiLowered(name)) {
            None
        } else {
            Some(TagView::Open(asciiLowered(name)))
        },
{
    lemmaNameInTag(name, attributes);
    let token = name + attributes;
    assert(token[0] == name[0]);
    if attributes.len() > 0 {
        assert(token.last() == attributes.last());
    } else {
        assert(token.last() == name[name.len() - 1]);
    }
}

/// A tag that ends in a slash closes itself, and one that begins with a slash closes the element of its
/// name, whatever follows.
pub proof fn lawSlashCloses(name: Seq<char>, rest: Seq<char>)
    requires
        isElementName(name),
        rest.len() > 0 ==> rest[0] == ' ' || rest[0] == '\t' || rest[0] == '\n' || rest[0] == '\r',
    ensures
        tagOf(name + rest + seq!['/']) is None,
        tagOf(seq!['/'] + (name + rest)) == Some(TagView::Close(asciiLowered(name))),
{
    lemmaNameInTag(name, rest);
    let closing = seq!['/'] + (name + rest);
    assert(closing[0] == '/');
    assert(closing.drop_first() == name + rest);
    assert((name + rest)[0] == name[0]);
    assert(withoutLeading(name + rest, '/') == name + rest);
    assert(withoutLeading(closing, '/') == name + rest);
    assert(tagName(closing) == tagName(name + rest));
    let own = name + rest + seq!['/'];
    assert(own[0] == name[0]);
    assert(own.last() == '/');
}

/// Declarations, comments and instructions are no tags, nor is an empty pair of brackets, nor anything that
/// does not begin with a name.
pub proof fn lawOtherBracketsAreNoTags(token: Seq<char>)
    requires
        token.len() > 0 ==> token[0] == '!' || token[0] == '?' || (token[0] != '/'
            && !isWhitespace(token[0]) && !isAsciiAlphanumeric(token[0]) && token[0] != '-'
            && token[0] != ':'),
    ensures
        tagOf(token) is None,
{
    if token.len() > 0 && token[0] != '!' && token[0] != '?' {
        assert(withoutLeading(token, '/') == token);
        assert(withoutLeadingSpace(token) == token);
        let word = beforeSpace(token);
        assert(word == seq![token[0]] + beforeSpace(token.drop_first()));
        lemmaTrailingKeepsStart(word, '/');
        let name = withoutTrailing(word, '/');
        assert(name == tagName(token));
        if name.len() > 0 {
            assert(name[0] == token[0]);
            assert(!isHtmlNameChar(name[0]));
        }
    }
}

proof fn lemmaTrailingKeepsStart(text: Seq<char>, c: char)
    ensures
        withoutTrailing(text, c).len() <= text.len(),
        withoutTrailing(text, c) == text.take(withoutTrailing(text, c).len() as int),
    decreases text.len(),
{
    if text.len() > 0 && text.last() == c {
        lemmaTrailingKeepsStart(text.drop_last(), c);
        let kept = withoutTrailing(text, c);
        assert(text.drop_last().take(kept.len() as int) == text.take(kept.len() as int));
    } else {
        assert(text.take(text.len() as int) == text);
    }
}

proof fn lemmaIndexIs(text: Seq<char>, c: char, at: int)
    requires
        0 <= at <= text.len(),
        at < text.len() ==> text[at] == c,
        forall|k: int| 0 <= k < at ==> text[k] != c,
    ensures
        indexOf(text, c) == at,
{
    lemmaIndexOf(text, c);
    let found = indexOf(text, c);
    if found < at {
        assert(text[found] != c);
    }
    if at < found {
        assert(text[at] != c);
    }
}

proof fn lemmaNextBrackets(source: Seq<char>, from: int, start: int, end: int)
    requires
        0 <= from <= start < end < source.len(),
        source[start] == '<',
        source[end] == '>',
        forall|k: int| from <= k < start ==> source[k] != '<',
        forall|k: int| start <= k < end ==> source[k] != '>',
    ensures
        tagEvents(source, from) == (match tagOf(trimmed(source.subrange(start + 1, end))) {
            Some(TagView::Open(name)) => seq![TagEvent::Open(name, start)],
            Some(TagView::Close(name)) => seq![TagEvent::Close(name, start)],
            None => Seq::empty(),
        }) + tagEvents(source, end + 1),
{
    assert forall|k: int| 0 <= k < start - from implies source.skip(from)[k] != '<' by {
        assert(source.skip(from)[k] == source[from + k]);
    }
    lemmaIndexIs(source.skip(from), '<', start - from);
    assert forall|k: int| 0 <= k < end - start implies source.skip(start)[k] != '>' by {
        assert(source.skip(start)[k] == source[start + k]);
    }
    lemmaIndexIs(source.skip(start), '>', end - start);
    let rest = tagEvents(source, end + 1);
    assert(Seq::<TagEvent>::empty() + rest == rest);
}

proof fn lemmaNoMoreBrackets(source: Seq<char>, from: int)
    requires
        0 <= from <= source.len(),
        forall|k: int| from <= k < source.len() ==> source[k] != '<',
    ensures
        tagEvents(source, from) == Seq::<TagEvent>::empty(),
{
    assert forall|k: int| 0 <= k < source.len() - from implies source.skip(from)[k] != '<' by {
        assert(source.skip(from)[k] == source[from + k]);
    }
    lemmaIndexIs(source.skip(from), '<', source.len() - from);
}

/// An opening tag as it is written.
pub open spec fn openingTag(
    before: Seq<char>,
    name: Seq<char>,
    attributes: Seq<char>,
    after: Seq<char>,
) -> Seq<char> {
    seq!['<'] + before + (name + attributes) + after + seq!['>']
}

/// A closing tag as it is written.
pub open spec fn closingTag(name: Seq<char>) -> Seq<char> {
    seq!['<', '/'] + name + seq!['>']
}

proof fn lemmaOpeningTag(
    source: Seq<char>,
    from: int,
    start: int,
    before: Seq<char>,
    name: Seq<char>,
    attributes: Seq<char>,
    after: Seq<char>,
)
    requires
        isElementName(name),
        areAttributes(attributes),
        onlyBlanks(before),
        onlyBlanks(after),
        0 <= from <= start,
        start + openingTag(before, name, attributes, after).len() <= source.len(),
        source.subrange(start, start + openingTag(before, name, attributes, after).len())
            == openingTag(before, name, attributes, after),
        forall|k: int| from <= k < start ==> source[k] != '<',
        !isVoidElement(asciiLowered(name)),
    ensures
        tagEvents(source, from) == seq![TagEvent::Open(asciiLowered(name), start)] + tagEvents(
            source,
            start + openingTag(before, name, attributes, after).len(),
        ),
{
    let tag = openingTag(before, name, attributes, after);
    let end = start + tag.len() - 1;
    let token = name + attributes;
    let inner = before + token + after;
    assert(tag == seq!['<'] + inner + seq!['>']);
    assert forall|k: int| 0 <= k < tag.len() implies source[start + k] == tag[k] by {
        assert(source.subrange(start, start + tag.len())[k] == source[start + k]);
    }
    assert(source[start] == tag[0]);
    assert(source[end] == tag[tag.len() - 1]);
    assert forall|k: int| start <= k < end implies source[k] != '>' by {
        let i = k - start;
        assert(source[start + i] == tag[i]);
        if i > 0 {
            assert(tag[i] == inner[i - 1]);
            let j = i - 1;
            if j < before.len() {
                assert(inner[j] == before[j]);
            } else if j < before.len() + name.len() {
                assert(inner[j] == name[j - before.len()]);
            } else if j < before.len() + token.len() {
                let m = j - before.len() - name.len();
                assert(inner[j] == attributes[m]);
                assert(attributes.contains(attributes[m]));
            } else {
                assert(inner[j] == after[j - before.len() - token.len()]);
            }
        }
    }
    lemmaNextBrackets(source, from, start, end);
    assert(source.subrange(start + 1, end) == inner) by {
        assert forall|k: int| 0 <= k < inner.len() implies source.subrange(start + 1, end)[k]
            == inner[k] by {
            assert(source[start + (k + 1)] == tag[k + 1]);
        }
        assert(source.subrange(start + 1, end) =~= inner);
    }
    lemmaNameInTag(name, attributes);
    assert(token[0] == name[0]);
    if attributes.len() > 0 {
        assert(token.last() == attributes.last());
    } else {
        assert(token.last() == name.last());
    }
    lawTrimmingTakesOuterBlanks(before, token, after);
    lawAttributesDoNotChangeTheElement(name, attributes);
}

proof fn lemmaClosingTag(source: Seq<char>, from: int, start: int, name: Seq<char>)
    requires
        isElementName(name),
        0 <= from <= start,
        start + closingTag(name).len() <= source.len(),
        source.subrange(start, start + closingTag(name).len()) == closingTag(name),
        forall|k: int| from <= k < start ==> source[k] != '<',
    ensures
        tagEvents(source, from) == seq![TagEvent::Close(asciiLowered(name), start)] + tagEvents(
            source,
            start + closingTag(name).len(),
        ),
{
    let tag = closingTag(name);
    let end = start + tag.len() - 1;
    let token = seq!['/'] + (name + Seq::<char>::empty());
    assert forall|k: int| 0 <= k < tag.len() implies source[start + k] == tag[k] by {
        assert(source.subrange(start, start + tag.len())[k] == source[start + k]);
    }
    assert(source[start] == tag[0]);
    assert(source[end] == tag[tag.len() - 1]);
    assert forall|k: int| start <= k < end implies source[k] != '>' by {
        let i = k - start;
        assert(source[start + i] == tag[i]);
        if i > 1 {
            assert(tag[i] == name[i - 2]);
        }
    }
    lemmaNextBrackets(source, from, start, end);
    assert(source.subrange(start + 1, end) == token) by {
        assert forall|k: int| 0 <= k < token.len() implies source.subrange(start + 1, end)[k]
            == token[k] by {
            assert(source[start + (k + 1)] == tag[k + 1]);
            if k > 0 {
                assert(token[k] == name[k - 1]);
                assert(tag[k + 1] == name[k - 1]);
            }
        }
        assert(source.subrange(start + 1, end) =~= token);
    }
    lemmaNameInTag(name, Seq::empty());
    assert(token.last() == name.last());
    let none = Seq::<char>::empty();
    lawTrimmingTakesOuterBlanks(none, token, none);
    assert(none + token + none == token);
    lawSlashCloses(name, Seq::empty());
}

/// An element that is opened and closed has no problems: its opening tag may hold attributes and blanks, the
/// two names may differ in case, and text stands around and between the tags.
pub proof fn lawClosedElementHasNoIssues(
    lead: Seq<char>,
    before: Seq<char>,
    name: Seq<char>,
    attributes: Seq<char>,
    after: Seq<char>,
    text: Seq<char>,
    closing: Seq<char>,
    rest: Seq<char>,
)
    requires
        isElementName(name),
        isElementName(closing),
        asciiLowered(name) == asciiLowered(closing),
        !isVoidElement(asciiLowered(name)),
        areAttributes(attributes),
        onlyBlanks(before),
        onlyBlanks(after),
        !lead.contains('<') && !text.contains('<') && !rest.contains('<'),
    ensures
        htmlIssues(
            lead + openingTag(before, name, attributes, after) + text + closingTag(closing) + rest,
        ).len() == 0,
{
    let opening = openingTag(before, name, attributes, after);
    let end = closingTag(closing);
    let source = lead + opening + text + end + rest;
    let first = lead.len() as int;
    let second = first + opening.len() + text.len();
    lemmaTwoTags(lead, opening, text, end, rest);
    lemmaOpeningTag(source, 0, first, before, name, attributes, after);
    lemmaClosingTag(source, first + opening.len(), second, closing);
    lemmaNoMoreBrackets(source, second + end.len());
    let label = asciiLowered(name);
    let events = tagEvents(source, 0);
    assert(events =~= seq![TagEvent::Open(label, first), TagEvent::Close(label, second)]);
    let start = HtmlState { stack: Seq::<OpenTag>::empty(), issues: Seq::<IssueView>::empty() };
    let inside = afterTag(source, start, events[0]);
    let done = afterTag(source, inside, events[1]);
    assert(inside.stack.last().0 == label);
    assert(done.stack =~= start.stack);
    lemmaTwoSteps(source, start, events);
}

/// An element that is closed under another name is reported at the closing tag and at the opening one.
pub proof fn lawMismatchIsReportedAtBothTags(
    lead: Seq<char>,
    before: Seq<char>,
    name: Seq<char>,
    attributes: Seq<char>,
    after: Seq<char>,
    text: Seq<char>,
    closing: Seq<char>,
    rest: Seq<char>,
)
    requires
        isElementName(name),
        isElementName(closing),
        asciiLowered(name) != asciiLowered(closing),
        !isVoidElement(asciiLowered(name)),
        areAttributes(attributes),
        onlyBlanks(before),
        onlyBlanks(after),
        !lead.contains('<') && !text.contains('<') && !rest.contains('<'),
    ensures
        ({
            let opening = openingTag(before, name, attributes, after);
            let source = lead + opening + text + closingTag(closing) + rest;
            let issues = htmlIssues(source);
            &&& issues.len() == 2
            &&& isIssueAt(
                issues[0],
                "validate.html.mismatchedTag"@,
                source,
                (lead.len() + opening.len() + text.len()) as int,
            )
            &&& isIssueAt(issues[1], "validate.html.openedHere"@, source, lead.len() as int)
        }),
{
    let opening = openingTag(before, name, attributes, after);
    let end = closingTag(closing);
    let source = lead + opening + text + end + rest;
    let first = lead.len() as int;
    let second = first + opening.len() + text.len();
    lemmaTwoTags(lead, opening, text, end, rest);
    lemmaOpeningTag(source, 0, first, before, name, attributes, after);
    lemmaClosingTag(source, first + opening.len(), second, closing);
    lemmaNoMoreBrackets(source, second + end.len());
    let events = tagEvents(source, 0);
    assert(events =~= seq![
        TagEvent::Open(asciiLowered(name), first),
        TagEvent::Close(asciiLowered(closing), second),
    ]);
    let start = HtmlState { stack: Seq::<OpenTag>::empty(), issues: Seq::<IssueView>::empty() };
    let inside = afterTag(source, start, events[0]);
    assert(inside.stack.last().0 == asciiLowered(name));
    lemmaTwoSteps(source, start, events);
}

/// An element that is never closed, and a bracket that is never closed, are reported where they begin; a
/// closing tag that nothing opened is reported too. Text without brackets has no problems.
pub proof fn lawLooseTagIsReported(
    lead: Seq<char>,
    before: Seq<char>,
    name: Seq<char>,
    attributes: Seq<char>,
    after: Seq<char>,
    rest: Seq<char>,
)
    requires
        isElementName(name),
        areAttributes(attributes),
        onlyBlanks(before),
        onlyBlanks(after),
        !lead.contains('<') && !rest.contains('<') && !rest.contains('>'),
    ensures
        htmlIssues(lead).len() == 0,
        !isVoidElement(asciiLowered(name)) ==> isOnlyIssue(
            lead + openingTag(before, name, attributes, after) + rest,
            "validate.html.unclosedTag"@,
            lead.len() as int,
        ),
        isOnlyIssue(
            lead + closingTag(name) + rest,
            "validate.html.unexpectedClosingTag"@,
            lead.len() as int,
        ),
        isOnlyIssue(
            lead + seq!['<'] + rest,
            "validate.html.unclosedTag"@,
            lead.len() as int,
        ),
{
    let first = lead.len() as int;
    let start = HtmlState { stack: Seq::<OpenTag>::empty(), issues: Seq::<IssueView>::empty() };
    assert forall|k: int| 0 <= k < lead.len() implies lead[k] != '<' by {
        assert(lead.contains(lead[k]));
    }
    assert forall|k: int| 0 <= k < rest.len() implies rest[k] != '<' && rest[k] != '>' by {
        assert(rest.contains(rest[k]));
    }
    lemmaNoMoreBrackets(lead, 0);
    if !isVoidElement(asciiLowered(name)) {
        let opening = openingTag(before, name, attributes, after);
        let source = lead + opening + rest;
        assert(source.subrange(first, first + opening.len()) =~= opening);
        assert forall|k: int| 0 <= k < first implies source[k] != '<' by {
            assert(source[k] == lead[k]);
        }
        assert forall|k: int| first + opening.len() <= k < source.len() implies source[k]
            != '<' by {
            assert(source[k] == rest[k - first - opening.len()]);
        }
        lemmaOpeningTag(source, 0, first, before, name, attributes, after);
        lemmaNoMoreBrackets(source, first + opening.len());
        let events = tagEvents(source, 0);
        assert(events =~= seq![TagEvent::Open(asciiLowered(name), first)]);
        lemmaOneStep(source, start, events);
        let issues = htmlIssues(source);
        assert(issues.len() == 1);
    }
    let closing = closingTag(name);
    let source = lead + closing + rest;
    assert(source.subrange(first, first + closing.len()) =~= closing);
    assert forall|k: int| 0 <= k < first implies source[k] != '<' by {
        assert(source[k] == lead[k]);
    }
    assert forall|k: int| first + closing.len() <= k < source.len() implies source[k] != '<' by {
        assert(source[k] == rest[k - first - closing.len()]);
    }
    lemmaClosingTag(source, 0, first, name);
    lemmaNoMoreBrackets(source, first + closing.len());
    let events = tagEvents(source, 0);
    assert(events =~= seq![TagEvent::Close(asciiLowered(name), first)]);
    lemmaOneStep(source, start, events);
    assert(htmlIssues(source).len() == 1);
    let open = lead + seq!['<'] + rest;
    assert forall|k: int| 0 <= k < first implies open.skip(0)[k] != '<' by {
        assert(open.skip(0)[k] == lead[k]);
    }
    assert(open.skip(0)[first] == '<');
    lemmaIndexIs(open.skip(0), '<', first);
    let tail = open.skip(first);
    assert(tail =~= seq!['<'] + rest);
    assert forall|k: int| 0 <= k < tail.len() implies tail[k] != '>' by {
        if k > 0 {
            assert(tail[k] == rest[k - 1]);
        }
    }
    lemmaIndexIs(tail, '>', tail.len() as int);
    let left = tagEvents(open, 0);
    assert(left =~= seq![TagEvent::Unterminated(first)]);
    lemmaOneStep(open, start, left);
    assert(htmlIssues(open).len() == 1);
}

/// Whether a problem is an error of a kind at the place of a character.
pub open spec fn isIssueAt(issue: IssueView, key: Seq<char>, source: Seq<char>, at: int) -> bool {
    &&& issue.severity == ValidationSeverity::Error
    &&& issue.messageKey == key
    &&& issue.line == Some(placeOf(source, at).0 as usize)
    &&& issue.column == Some(placeOf(source, at).1 as usize)
}

/// Whether a document has one problem, and it is an error of a kind at the place of a character.
pub open spec fn isOnlyIssue(source: Seq<char>, key: Seq<char>, at: int) -> bool {
    htmlIssues(source).len() == 1 && isIssueAt(htmlIssues(source)[0], key, source, at)
}

proof fn lemmaOneStep(source: Seq<char>, state: HtmlState, events: Seq<TagEvent>)
    requires
        events.len() == 1,
    ensures
        afterTags(source, state, events) == afterTag(source, state, events[0]),
{
    let next = afterTag(source, state, events[0]);
    assert(events.drop_first() =~= Seq::<TagEvent>::empty());
    assert(afterTags(source, next, events.drop_first()) == next);
}

proof fn lemmaTwoSteps(source: Seq<char>, state: HtmlState, events: Seq<TagEvent>)
    requires
        events.len() == 2,
    ensures
        afterTags(source, state, events) == afterTag(
            source,
            afterTag(source, state, events[0]),
            events[1],
        ),
{
    let rest = events.drop_first();
    assert(rest[0] == events[1]);
    lemmaOneStep(source, afterTag(source, state, events[0]), rest);
}

proof fn lemmaTwoTags(
    lead: Seq<char>,
    opening: Seq<char>,
    text: Seq<char>,
    end: Seq<char>,
    rest: Seq<char>,
)
    requires
        !lead.contains('<') && !text.contains('<') && !rest.contains('<'),
    ensures
        ({
            let source = lead + opening + text + end + rest;
            let first = lead.len() as int;
            let second = first + opening.len() + text.len();
            &&& source.subrange(first, first + opening.len()) == opening
            &&& source.subrange(second, second + end.len()) == end
            &&& forall|k: int| 0 <= k < first ==> source[k] != '<'
            &&& forall|k: int| first + opening.len() <= k < second ==> source[k] != '<'
            &&& forall|k: int| second + end.len() <= k < source.len() ==> source[k] != '<'
        }),
{
    let source = lead + opening + text + end + rest;
    let first = lead.len() as int;
    let second = first + opening.len() + text.len();
    assert(source.subrange(first, first + opening.len()) =~= opening);
    assert(source.subrange(second, second + end.len()) =~= end);
    assert forall|k: int| 0 <= k < first implies source[k] != '<' by {
        assert(source[k] == lead[k]);
        assert(lead.contains(lead[k]));
    }
    assert forall|k: int| first + opening.len() <= k < second implies source[k] != '<' by {
        let i = k - first - opening.len();
        assert(source[k] == text[i]);
        assert(text.contains(text[i]));
    }
    assert forall|k: int| second + end.len() <= k < source.len() implies source[k] != '<' by {
        let i = k - second - end.len();
        assert(source[k] == rest[i]);
        assert(rest.contains(rest[i]));
    }
}

/// The first line is line one and the first character of a line stands in column one: a character stands in
/// the line after the line breaks before it, and its column counts the characters since the last of them.
pub proof fn lawPlacesCountFromOne(head: Seq<char>, line: Seq<char>, rest: Seq<char>)
    requires
        !line.contains('\n'),
    ensures
        placeOf(line + rest, line.len() as int) == (1nat, line.len() + 1),
        placeOf(head + seq!['\n'] + line + rest, (head.len() + 1 + line.len()) as int) == (
            lineBreaks(head) + 2,
            line.len() + 1,
        ),
        lineBreaks(head + seq!['\n'] + line) == lineBreaks(head) + 1,
        lineBreaks(line) == 0,
{
    assert((line + rest).take(line.len() as int) =~= line);
    lemmaOneLine(Seq::empty(), line);
    assert(Seq::<char>::empty() + line =~= line);
    let first = head + seq!['\n'];
    lemmaOneLine(first, line);
    assert(first.drop_last() =~= head);
    assert((head + seq!['\n'] + line + rest).take((head.len() + 1 + line.len()) as int) =~= first + line);
}

proof fn lemmaOneLine(head: Seq<char>, line: Seq<char>)
    requires
        !line.contains('\n'),
        head.len() == 0 || head.last() == '\n',
    ensures
        lineBreaks(head + line) == lineBreaks(head),
        lastLineLength(head + line) == line.len(),
    decreases line.len(),
{
    if line.len() == 0 {
        assert(head + line =~= head);
    } else {
        let shorter = line.drop_last();
        assert(!shorter.contains('\n')) by {
            if shorter.contains('\n') {
                let k = choose|k: int| 0 <= k < shorter.len() && shorter[k] == '\n';
                assert(line[k] == '\n');
            }
        }
        lemmaOneLine(head, shorter);
        assert(line.contains(line.last()));
        assert((head + line).drop_last() =~= head + shorter);
    }
}

/// A word that holds any other character than those of a name, wherever in it, is the name of no tag.
pub proof fn lawOddWordsAreNoTags(word: Seq<char>, rest: Seq<char>, i: int)
    requires
        0 <= i < word.len(),
        !('a' <= word[i] <= 'z' || 'A' <= word[i] <= 'Z' || '0' <= word[i] <= '9' || word[i] == '-'
            || word[i] == ':'),
        word[0] != '/' && word.last() != '/',
        forall|k: int|
            0 <= k < word.len() ==> #[trigger] word[k] != ' ' && word[k] != '\t' && word[k] != '\n'
                && word[k] != '\r' && word[k] as u32 != 12,
        rest.len() > 0 ==> rest[0] == ' ' || rest[0] == '\t' || rest[0] == '\n' || rest[0] == '\r',
    ensures
        tagOf(word + rest) is None,
        tagOf(seq!['/'] + (word + rest)) is None,
{
    let token = word + rest;
    assert(token[0] == word[0]);
    assert(withoutLeading(token, '/') == token);
    assert(withoutLeadingSpace(token) == token);
    lemmaWordBeforeSpace(word, rest);
    assert(withoutTrailing(word, '/') == word);
    assert(tagName(token) == word);
    assert(!isHtmlNameChar(word[i]));
    let closing = seq!['/'] + token;
    assert(closing[0] == '/');
    assert(closing.drop_first() == token);
    assert(withoutLeading(closing, '/') == token);
    assert(tagName(closing) == word);
}

} // verus!
