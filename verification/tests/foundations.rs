#![allow(non_snake_case)]

use proxy_backend::controlApi::dataDirectory::newStagingDirectoryName;
use proxy_backend::controlApi::mapLocalImport::{newImportPlaces, stagingName};
use proxy_backend::controlApi::protocolControl::protobuf::{checkStoredSchema, ProtobufSchemaEntry};
use proxy_backend::identifier::newIdentifierText;
use proxy_backend::network::{Endpoint, HostAddress, IpAddress};
use proxy_backend::ordering::{orderLargestFirst, orderSmallestFirst};
use proxy_backend::packetDataPlane::{
    process, streamDirection, DataPlaneActionResult, StreamDirection, UdpDatagramDecision,
    UdpDatagramDirection, WireByteModification,
};
use proxy_backend::runtime::{
    controlAddressText, endsShutdownWait, resolveControlAddress, runControlService,
    standaloneModeEnabled, CommandInput, ServeOutcome,
};
use proxy_backend::text::{
    asciiLowerText, byteLen, charsOf, concatText, concatThree, containsControl, copyOptional,
    decimalText, equalIgnoringAsciiCase, equalText, findChar, holdsText, isAsciiAlphanumericChar,
    isControlChar, isWhitespaceChar, joinTexts, lessText, matchesAt, parseUnsigned, replaceText,
    sortTexts, splitOnceText, splitText, startsWithText, textOf, textOfRange, trimText,
};

fn texts(values: &[&str]) -> Vec<String> {
    values.iter().map(|value| value.to_string()).collect()
}

#[test]
fn charactersComeInOrder() {
    assert_eq!(charsOf("aé中"), vec!['a', 'é', '中']);
    assert_eq!(textOf(&vec!['a', 'é', '中']), "aé中");
    assert_eq!(textOfRange(&vec!['a', 'b', 'c', 'd'], 1, 3), "bc");
    assert_eq!(byteLen("aé中"), 6);
    assert_eq!(byteLen(""), 0);
}

#[test]
fn textsAreComparedAsWholes() {
    assert!(equalText("same", "same"));
    assert!(!equalText("same", "Same"));
    assert!(equalIgnoringAsciiCase("Content-TYPE", "content-type"));
    assert!(!equalIgnoringAsciiCase("É", "é"));
    assert_eq!(asciiLowerText("ABC-É"), "abc-É");
    assert_eq!(copyOptional(&Some("x".to_string())), Some("x".to_string()));
    assert_eq!(copyOptional(&None), None);
}

#[test]
fn textsAreJoinedAndSplit() {
    assert_eq!(concatText("ab", "cd"), "abcd");
    assert_eq!(concatThree("a", "-", "b"), "a-b");
    assert_eq!(splitText("a,b,,c", ','), texts(&["a", "b", "", "c"]));
    assert_eq!(splitText("", ','), texts(&[""]));
    assert_eq!(
        splitOnceText("k=v=w", '='),
        Some(("k".to_string(), "v=w".to_string()))
    );
    assert_eq!(splitOnceText("none", '='), None);
    assert_eq!(joinTexts(&texts(&["a", "b", "c"]), "; "), "a; b; c");
    assert_eq!(joinTexts(&texts(&[]), "; "), "");
}

#[test]
fn splittingUndoesJoining() {
    let parts = texts(&["one", "", "three"]);
    assert_eq!(splitText(&joinTexts(&parts, "/"), '/'), parts);
}

#[test]
fn whitespaceIsTrimmed() {
    assert_eq!(trimText("  \t a b \u{3000}\n"), "a b");
    assert_eq!(trimText(&trimText("  x ")), "x");
    assert_eq!(trimText(" \u{2003} "), "");
    assert!(isWhitespaceChar('\u{00a0}'));
    assert!(!isWhitespaceChar('\u{200b}'));
    for code in 0..0x11_0000u32 {
        if let Some(c) = char::from_u32(code) {
            assert_eq!(isWhitespaceChar(c), c.is_whitespace(), "{code:x}");
            assert_eq!(isControlChar(c), c.is_control(), "{code:x}");
        }
    }
}

#[test]
fn charactersAreClassified() {
    assert!(isAsciiAlphanumericChar('z') && isAsciiAlphanumericChar('0'));
    assert!(!isAsciiAlphanumericChar('-') && !isAsciiAlphanumericChar('é'));
    assert!(containsControl("a\u{7f}"));
    assert!(!containsControl("plain text"));
    assert_eq!(findChar(&vec!['a', 'b', 'a'], 1, 'a'), 2);
    assert_eq!(findChar(&vec!['a', 'b'], 0, 'x'), 2);
    assert!(matchesAt(&charsOf("abcd"), 1, &charsOf("bc")));
    assert!(!matchesAt(&charsOf("abcd"), 3, &charsOf("de")));
    assert!(startsWithText("http://x", "http://"));
    assert!(!startsWithText("htt", "http"));
    assert!(holdsText("xxabcxx", "abc"));
    assert!(!holdsText("xxacbxx", "abc"));
}

#[test]
fn patternsAreReplacedLeftToRight() {
    assert_eq!(replaceText("aXbXc", "X", "--"), "a--b--c");
    assert_eq!(replaceText("aaa", "aa", "b"), "ba");
    assert_eq!(replaceText("{x}{x}", "{x}", "{x}"), "{x}{x}");
}

#[test]
fn textsAreSorted() {
    assert_eq!(
        sortTexts(&texts(&["b", "a", "ab", "B", "a"])),
        texts(&["B", "a", "a", "ab", "b"])
    );
    assert!(lessText("a", "ab") && lessText("Z", "a") && !lessText("a", "a"));
}

#[test]
fn numbersAreWrittenAndRead() {
    assert_eq!(decimalText(0), "0");
    assert_eq!(decimalText(u64::MAX), "18446744073709551615");
    assert_eq!(parseUnsigned("18446744073709551615"), Some(u64::MAX));
    assert_eq!(parseUnsigned("18446744073709551616"), Some(u64::MAX));
    assert_eq!(parseUnsigned("+7"), Some(7));
    assert_eq!(parseUnsigned("007"), Some(7));
    assert_eq!(parseUnsigned(""), None);
    assert_eq!(parseUnsigned("-1"), None);
    assert_eq!(parseUnsigned("1 "), None);
}

#[test]
fn recordsAreOrderedByKey() {
    assert_eq!(orderLargestFirst(&vec![3, 9, 3, 10]), vec![3, 1, 0, 2]);
    assert_eq!(orderLargestFirst(&vec![]), Vec::<usize>::new());
    assert_eq!(orderSmallestFirst(&vec![3, 9, 3, 10]), vec![0, 2, 1, 3]);
    assert_eq!(orderSmallestFirst(&vec![u64::MAX, 0]), vec![1, 0]);
}

#[test]
fn identifiersAreWrittenAndRead() {
    let id: u128 = 0x0123_4567_89ab_cdef_0123_4567_89ab_cdef;
    assert_eq!(stagingName(id), ".01234567-89ab-cdef-0123-456789abcdef.staging");
    let stored = |id: &str| ProtobufSchemaEntry {
        id: id.to_string(),
        name: String::new(),
        descriptorPath: format!("protobufDescriptors/{id}.desc"),
        defaultMessageType: String::new(),
    };
    assert!(checkStoredSchema(&stored("01234567-89ab-cdef-0123-456789abcdef")).is_ok());
    assert!(checkStoredSchema(&stored("0123456789abcdef0123456789abcdef")).is_ok());
    assert!(checkStoredSchema(&stored("not-an-identifier")).is_err());
}

#[test]
fn freshIdentifiersAreRandom() {
    let first = newIdentifierText();
    assert_eq!((first.len(), first.as_bytes()[14]), (36, b'4'));
    assert!(matches!(first.as_bytes()[19], b'8' | b'9' | b'a' | b'b'));
    assert_ne!(first, newIdentifierText());
    let places = newImportPlaces();
    assert_eq!(places.staging, stagingName(places.importIdentifier));
    assert_eq!(places.staging, format!(".{}.staging", places.published));
    let staging = newStagingDirectoryName();
    assert!(staging.starts_with(".data-migration-"));
    assert_eq!(staging.len(), 16 + 36);
}

#[test]
fn addressesKnowTheirReach() {
    assert!(IpAddress::V4(0x7f00_0001).loopback());
    assert!(IpAddress::V4(0x7fff_ffff).loopback());
    assert!(IpAddress::V6(1).loopback());
    assert!(!IpAddress::V6(2).loopback());
    assert!(IpAddress::V4(0).unspecified() && IpAddress::V6(0).unspecified());
    assert_eq!(IpAddress::V4(0).local(), IpAddress::V4(0x7f00_0001));
    assert_eq!(IpAddress::V6(0).local(), IpAddress::V6(1));
    assert_eq!(IpAddress::V4(0x0102_0304).local(), IpAddress::V4(0x0102_0304));
    let host = HostAddress { address: IpAddress::V4(1), text: "0.0.0.1".to_string() };
    assert_eq!(host.copied().text, "0.0.0.1");
    assert_eq!(
        Endpoint { address: IpAddress::V4(1), port: 2 },
        Endpoint { address: IpAddress::V4(1), port: 2 }
    );
}

#[test]
fn standaloneModeIsSwitchedByItsValue() {
    assert!(standaloneModeEnabled(Some("1")));
    assert!(standaloneModeEnabled(Some("true")));
    assert!(!standaloneModeEnabled(Some("0")));
    assert!(!standaloneModeEnabled(None));
}

#[test]
fn controlAddressMustStayLocal() {
    let local = Endpoint { address: IpAddress::V4(0x7f00_0001), port: 7 };
    assert_eq!(resolveControlAddress(Ok(local)), Ok(local));
    assert_eq!(
        resolveControlAddress(Ok(Endpoint { address: IpAddress::V4(0), port: 7 })),
        Err("控制接口只允许绑定本机回环地址".to_string())
    );
    assert_eq!(
        resolveControlAddress(Err("no address".to_string())),
        Err("控制地址无效：no address".to_string())
    );
    assert_eq!(controlAddressText(None), "127.0.0.1:17890");
    assert_eq!(controlAddressText(Some("x".to_string())), "x");
}

#[test]
fn runsEndWithAReport() {
    let quiet = runControlService(ServeOutcome::Served, None);
    assert!(quiet.lines.is_empty() && !quiet.failed);
    let cut = runControlService(ServeOutcome::CutOff, Some("stuck".to_string()));
    assert_eq!(
        cut.lines,
        vec!["控制接口排空超过 1 秒，已关闭残留控制连接", "SOCKS5 服务关闭失败：stuck"]
    );
    assert!(cut.failed);
    let broken =
        runControlService(ServeOutcome::Failed("io".to_string()), Some("stuck".to_string()));
    assert_eq!(broken.lines, vec!["控制接口运行失败：io"]);
    assert!(broken.failed);
}

#[test]
fn shutdownWaitEndsOnCommandOrEnd() {
    assert!(endsShutdownWait(&CommandInput::Line("shutdown".to_string())));
    assert!(endsShutdownWait(&CommandInput::Line("  shutdown \n".to_string())));
    assert!(!endsShutdownWait(&CommandInput::Line("status".to_string())));
    assert!(endsShutdownWait(&CommandInput::EndOfInput));
    assert!(endsShutdownWait(&CommandInput::ReadFailed));
}

#[test]
fn datagramsFollowTheFilters() {
    assert_eq!(streamDirection(UdpDatagramDirection::Up), StreamDirection::ClientToServer);
    assert_eq!(streamDirection(UdpDatagramDirection::Down), StreamDirection::ServerToClient);
    match process(DataPlaneActionResult::Forward {
        bytes: vec![1, 9],
        modifications: vec![WireByteModification {
            offsetBytes: 1,
            originalBytes: vec![2],
            modifiedBytes: vec![9],
        }],
    }) {
        UdpDatagramDecision::Forward { payload, modifications } => {
            assert_eq!(payload, vec![1, 9]);
            assert_eq!(modifications.len(), 1);
            assert_eq!(modifications[0].originalBytes, vec![2]);
        }
        other => panic!("{other:?}"),
    }
    assert!(matches!(process(DataPlaneActionResult::Drop), UdpDatagramDecision::Drop));
    assert!(matches!(process(DataPlaneActionResult::Hold), UdpDatagramDecision::Drop));
    assert!(matches!(process(DataPlaneActionResult::Close), UdpDatagramDecision::Close));
}
