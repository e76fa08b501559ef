//! JSON documents and their members.

use crate::text::{concatThree, copyText, equalText, optionalView, views};
use vstd::prelude::*;

verus! {

/// The document of a member, where a text is a JSON object that has it.
pub uninterp spec fn documentMember(document: Seq<char>, name: Seq<char>) -> Option<Seq<char>>;

/// The document of a member.
///
/// Trusted: `serde_json::from_str`, `Value::get` and the value's display. The result depends on the
/// text and the name alone; what a JSON text is, is not stated.
#[verifier::external_body]
pub(crate) fn findDocument(document: &str, name: &str) -> (result: Option<String>)
    ensures
        optionalView(result) == documentMember(document@, name@),
{
    let value = serde_json::from_str::<serde_json::Value>(document).ok()?;
    value.get(name).map(|member| member.to_string())
}

/// The text that a member is, where a text is a JSON object that has it.
pub uninterp spec fn textMember(document: Seq<char>, name: Seq<char>) -> Option<Seq<char>>;

/// The text that a member is.
///
/// Trusted: `serde_json::from_str`, `Value::get` and `Value::as_str`. The result depends on the text and
/// the name alone; what a JSON text is, is not stated.
#[verifier::external_body]
pub(crate) fn findText(document: &str, name: &str) -> (result: Option<String>)
    ensures
        optionalView(result) == textMember(document@, name@),
{
    let value = serde_json::from_str::<serde_json::Value>(document).ok()?;
    value.get(name)?.as_str().map(|text| text.to_owned())
}

/// The whole number that a member is, where a text is a JSON object that has it.
pub uninterp spec fn integerMember(document: Seq<char>, name: Seq<char>) -> Option<i64>;

/// The whole number that a member is.
///
/// Trusted: `serde_json::from_str`, `Value::get` and `Value::as_i64`. The result depends on the text and
/// the name alone; what a JSON text is, is not stated.
#[verifier::external_body]
pub(crate) fn findInteger(document: &str, name: &str) -> (result: Option<i64>)
    ensures
        result == integerMember(document@, name@),
{
    let value = serde_json::from_str::<serde_json::Value>(document).ok()?;
    value.get(name)?.as_i64()
}

/// The whole number that is not negative and that a member is, where a text is a JSON object that has
/// it.
pub uninterp spec fn unsignedMember(document: Seq<char>, name: Seq<char>) -> Option<u64>;

/// The whole number that is not negative and that a member is.
///
/// Trusted: `serde_json::from_str`, `Value::get` and `Value::as_u64`. The result depends on the text and
/// the name alone; what a JSON text is, is not stated.
#[verifier::external_body]
pub(crate) fn findUnsigned(document: &str, name: &str) -> (result: Option<u64>)
    ensures
        result == unsignedMember(document@, name@),
{
    let value = serde_json::from_str::<serde_json::Value>(document).ok()?;
    value.get(name)?.as_u64()
}

/// The documents in the list that a member is, where a text is a JSON object that has it.
pub uninterp spec fn listMember(document: Seq<char>, name: Seq<char>) -> Option<Seq<Seq<char>>>;

/// The documents in the list that a member is, in order.
///
/// Trusted: `serde_json::from_str`, `Value::get`, `Value::as_array` and the display of each item. The
/// result depends on the text and the name alone; what a JSON text is, is not stated.
#[verifier::external_body]
pub(crate) fn findList(document: &str, name: &str) -> (result: Option<Vec<String>>)
    ensures
        match result {
            Some(items) => listMember(document@, name@) == Some(views(items@)),
            None => listMember(document@, name@) is None,
        },
{
    let value = serde_json::from_str::<serde_json::Value>(document).ok()?;
    value.get(name)?.as_array().map(|items| items.iter().map(|item| item.to_string()).collect())
}

/// The JSON document that bytes write; `None` where they write none.
pub uninterp spec fn writtenDocument(bytes: Seq<u8>) -> Option<Seq<char>>;

/// The value of a document that was read.
pub open spec fn documentView(document: Result<String, String>) -> Option<Seq<char>> {
    match document {
        Ok(text) => Some(text@),
        Err(_) => None,
    }
}

/// The JSON document that bytes write, or why they write none.
///
/// Trusted: `serde_json::from_slice` and the value's display. Whether there is a document, and which,
/// depends on the bytes alone; what a JSON text is and what is said of bytes that are none, is not
/// stated.
#[verifier::external_body]
pub(crate) fn readDocument(bytes: &[u8]) -> (result: Result<String, String>)
    ensures
        documentView(result) == writtenDocument(bytes@),
{
    let value = serde_json::from_slice::<serde_json::Value>(bytes);
    value.map(|value| value.to_string()).map_err(|error| error.to_string())
}

// ---------------------------------------------------------------------------
// The members of an object
// ---------------------------------------------------------------------------

/// A member of a JSON object: its name and its document.
#[derive(Debug)]
pub struct Member {
    pub name: String,
    pub document: String,
}

/// The name and the document of a member.
pub type MemberView = (Seq<char>, Seq<char>);

impl View for Member {
    type V = MemberView;

    open spec fn view(&self) -> MemberView {
        (self.name@, self.document@)
    }
}

/// The values of members.
pub open spec fn memberViews(members: Seq<Member>) -> Seq<MemberView> {
    members.map_values(|member: Member| member@)
}

/// Whether no name stands twice.
pub open spec fn namesDiffer(members: Seq<MemberView>) -> bool {
    forall|i: int, j: int| 0 <= i < j < members.len() ==> (#[trigger] members[i]).0 != (
    #[trigger] members[j]).0
}

/// A text between quotes, as JSON writes it.
pub uninterp spec fn quotedText(text: Seq<char>) -> Seq<char>;

/// A text between quotes, as JSON writes it.
///
/// Trusted: `serde_json::Value`'s display of a string. The result depends on the text alone; which
/// characters are escaped is not stated.
#[verifier::external_body]
pub(crate) fn quoteText(text: &str) -> (result: String)
    ensures
        result@ == quotedText(text@),
{
    serde_json::Value::from(text).to_string()
}

/// The members between the braces of an object, one after the other.
pub open spec fn writtenMembers(members: Seq<MemberView>) -> Seq<char>
    decreases members.len(),
{
    if members.len() == 0 {
        Seq::empty()
    } else {
        let last = quotedText(members.last().0) + ":"@ + members.last().1;
        if members.len() == 1 {
            last
        } else {
            writtenMembers(members.drop_last()) + ","@ + last
        }
    }
}

/// An object with given members.
pub open spec fn writtenObject(members: Seq<MemberView>) -> Seq<char> {
    "{"@ + writtenMembers(members) + "}"@
}

/// The members of the object that bytes write; `None` where they write none.
pub uninterp spec fn objectMembers(bytes: Seq<u8>) -> Option<Seq<MemberView>>;

/// The members of an object, as they were read.
pub open spec fn membersView(members: Option<Vec<Member>>) -> Option<Seq<MemberView>> {
    match members {
        Some(members) => Some(memberViews(members@)),
        None => None,
    }
}

/// Whether members are those of a document: no name stands twice, and written again they are the
/// document.
pub open spec fn areMembersOf(members: Seq<MemberView>, document: Option<Seq<char>>) -> bool {
    namesDiffer(members) && document == Some(writtenObject(members))
}

/// Lists the members of an object.
///
/// Trusted: `serde_json::from_slice` into a `Map`, its walk and the display of each value. The members
/// depend on the bytes alone. A map holds a name once, and the display of an object writes its members
/// in the same order, each name as a string is written, without blanks.
#[verifier::external_body]
pub(crate) fn listMembers(bytes: &[u8]) -> (result: Option<Vec<Member>>)
    ensures
        membersView(result) == objectMembers(bytes@),
        result matches Some(members) ==> areMembersOf(
            memberViews(members@),
            writtenDocument(bytes@),
        ),
{
    let object = serde_json::from_slice::<serde_json::Map<String, serde_json::Value>>(bytes).ok()?;
    Some(
        object.iter().map(
            |(name, value)| Member { name: name.to_owned(), document: value.to_string() },
        ).collect(),
    )
}

/// Writes an object with given members.
pub fn writeObject(members: &Vec<Member>) -> (result: String)
    ensures
        result@ == writtenObject(memberViews(members@)),
{
    let ghost all = memberViews(members@);
    let mut text = String::new();
    let mut i: usize = 0;
    assert(text@ == writtenMembers(all.take(0)));
    while i < members.len()
        invariant
            i <= members.len(),
            all == memberViews(members@),
            text@ == writtenMembers(all.take(i as int)),
        decreases members.len() - i,
    {
        let name = quoteText(members[i].name.as_str());
        let member = concatThree(name.as_str(), ":", members[i].document.as_str());
        proof {
            assert(all.take(i + 1).drop_last() == all.take(i as int));
            assert(all.take(i + 1).last() == members@[i as int]@);
        }
        text = if i == 0 {
            member
        } else {
            concatThree(text.as_str(), ",", member.as_str())
        };
        i += 1;
    }
    assert(all.take(i as int) == all);
    concatThree("{", text.as_str(), "}")
}

/// The document of a member; of the first one, where a name stands twice.
pub open spec fn memberOf(members: Seq<MemberView>, name: Seq<char>) -> Option<Seq<char>>
    decreases members.len(),
{
    if members.len() == 0 {
        None
    } else if members[0].0 == name {
        Some(members[0].1)
    } else {
        memberOf(members.drop_first(), name)
    }
}

/// The document of a member.
pub fn findMember(members: &Vec<Member>, name: &str) -> (result: Option<String>)
    ensures
        optionalView(result) == memberOf(memberViews(members@), name@),
{
    let ghost all = memberViews(members@);
    let mut i: usize = 0;
    assert(all.skip(0) == all);
    while i < members.len()
        invariant
            i <= members.len(),
            all == memberViews(members@),
            memberOf(all, name@) == memberOf(all.skip(i as int), name@),
        decreases members.len() - i,
    {
        assert(all.skip(i as int)[0] == members@[i as int]@);
        assert(all.skip(i as int).drop_first() == all.skip(i + 1));
        if equalText(members[i].name.as_str(), name) {
            return Some(copyText(members[i].document.as_str()));
        }
        i += 1;
    }
    None
}

/// Members without those of a name.
pub open spec fn withoutMember(members: Seq<MemberView>, name: Seq<char>) -> Seq<MemberView> {
    members.filter(|member: MemberView| member.0 != name)
}

/// Whether there is a member of a name.
pub open spec fn hasMember(members: Seq<MemberView>, name: Seq<char>) -> bool {
    exists|i: int| 0 <= i < members.len() && (#[trigger] members[i]).0 == name
}

/// Drops the members of a name, and tells whether there were any.
pub fn dropMember(members: Vec<Member>, name: &str) -> (result: (Vec<Member>, bool))
    ensures
        memberViews(result.0@) == withoutMember(memberViews(members@), name@),
        result.1 == hasMember(memberViews(members@), name@),
{
    let ghost all = memberViews(members@);
    let mut kept: Vec<Member> = Vec::new();
    let mut found = false;
    let mut i: usize = 0;
    proof {
        reveal(Seq::filter);
    }
    assert(memberViews(kept@) == withoutMember(all.take(0), name@));
    while i < members.len()
        invariant
            i <= members.len(),
            all == memberViews(members@),
            memberViews(kept@) == withoutMember(all.take(i as int), name@),
            found == exists|k: int| 0 <= k < i && (#[trigger] all[k]).0 == name@,
        decreases members.len() - i,
    {
        proof {
            reveal(Seq::filter);
            assert(all.take(i + 1).drop_last() == all.take(i as int));
            assert(all.take(i + 1).last() == members@[i as int]@);
        }
        let ghost before = kept@;
        if equalText(members[i].name.as_str(), name) {
            found = true;
            assert(all[i as int].0 == name@);
        } else {
            kept.push(
                Member {
                    name: copyText(members[i].name.as_str()),
                    document: copyText(members[i].document.as_str()),
                },
            );
            assert(memberViews(kept@) == memberViews(before).push(members@[i as int]@));
        }
        i += 1;
    }
    assert(all.take(i as int) == all);
    (kept, found)
}

/// Members, with another document for those of a name.
pub open spec fn withMember(members: Seq<MemberView>, name: Seq<char>, document: Seq<char>) -> Seq<
    MemberView,
> {
    members.map_values(
        |member: MemberView|
            if member.0 == name {
                (name, document)
            } else {
                member
            },
    )
}

/// Gives the members of a name another document.
pub fn replaceMember(members: Vec<Member>, name: &str, document: &str) -> (result: Vec<Member>)
    ensures
        memberViews(result@) == withMember(memberViews(members@), name@, document@),
{
    let ghost wanted = withMember(memberViews(members@), name@, document@);
    let mut result: Vec<Member> = Vec::new();
    let mut i: usize = 0;
    while i < members.len()
        invariant
            i <= members.len(),
            wanted == withMember(memberViews(members@), name@, document@),
            memberViews(result@) == wanted.take(i as int),
        decreases members.len() - i,
    {
        let ghost before = result@;
        let kept = if equalText(members[i].name.as_str(), name) {
            copyText(document)
        } else {
            copyText(members[i].document.as_str())
        };
        result.push(Member { name: copyText(members[i].name.as_str()), document: kept });
        assert(wanted[i as int] == result@.last()@);
        assert(memberViews(result@) == memberViews(before).push(wanted[i as int]));
        i += 1;
        assert(memberViews(result@) == wanted.take(i as int));
    }
    assert(wanted.take(i as int) == wanted);
    result
}

/// A member is found under its name, the first of that name; one that is not there is not found.
pub proof fn lawMemberIsFoundByName(members: Seq<MemberView>, name: Seq<char>)
    ensures
        match memberOf(members, name) {
            Some(document) => exists|i: int|
                0 <= i < members.len() && #[trigger] members[i] == (name, document),
            None => forall|i: int| 0 <= i < members.len() ==> (#[trigger] members[i]).0 != name,
        },
        memberOf(members, name) is Some <==> hasMember(members, name),
    decreases members.len(),
{
    if members.len() > 0 {
        let rest = members.drop_first();
        if members[0].0 == name {
            assert(members[0] == (name, members[0].1));
        } else {
            lawMemberIsFoundByName(rest, name);
            match memberOf(rest, name) {
                Some(document) => {
                    let i = choose|i: int|
                        0 <= i < rest.len() && #[trigger] rest[i] == (name, document);
                    assert(members[i + 1] == (name, document));
                },
                None => {
                    assert forall|i: int| 0 <= i < members.len() implies (#[trigger] members[i]).0
                        != name by {
                        if i > 0 {
                            assert(rest[i - 1] == members[i]);
                        }
                    }
                },
            }
        }
    }
}

/// An object is written member by member, in order, with commas between and a colon behind each name.
pub proof fn lawObjectIsWrittenInOrder(members: Seq<MemberView>, member: MemberView)
    ensures
        writtenObject(Seq::empty()) == "{}"@,
        writtenObject(seq![member]) == "{"@ + (quotedText(member.0) + ":"@ + member.1) + "}"@,
        members.len() > 0 ==> writtenMembers(members.push(member)) == writtenMembers(members) + ","@
            + (quotedText(member.0) + ":"@ + member.1),
{
    reveal_strlit("{");
    reveal_strlit("}");
    reveal_strlit("{}");
    assert(writtenObject(Seq::empty()) =~= "{}"@);
    assert(members.push(member).drop_last() =~= members);
}

} // verus!
