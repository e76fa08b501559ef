#![allow(non_snake_case)]

use base64::Engine;
use proxy_backend::controlApi::protocolControl::htmlStructure::{
    isHtmlVoidElement, lineAndColumn, validateHtmlWellFormed,
};
use proxy_backend::controlApi::protocolControl::protobuf::{
    admitDescriptor, checkStoredSchema, decodeProtobuf, grpcPayload, loadDescriptor,
    loadDescriptorPools, newSchemaEntry, pendingDescriptorName, schemaEntry, selectProtobufRoute,
    validateDescriptorUpload, validateProtobufRoutes, DecodeSide, ProtobufConfiguration,
    ProtobufConfigurationUpdate, ProtobufDescriptorUpload, ProtobufRoute, SchemaPool, UploadStep,
};
use proxy_backend::controlApi::protocolControl::reports::{ValidationReport, ValidationReports};
use proxy_backend::controlApi::protocolControl::validation::{
    checkScheme, isTextualContent, readAnswer, reportJsonError, reportMessages, validateBody,
    validateJsonSyntax, validateOnlineHtml, validateValidateConfiguration, validationIssue,
    validatorEnabled, BodyValidation, OnlineMessage, ValidateConfiguration, ValidationSeverity,
    ValidatorConfiguration, ValidatorId,
};
use proxy_backend::controlApi::protocolControl::{
    mapProtocolError, protocolConfigurationIoError, publishConfiguration, ProtocolError,
};
use proxy_backend::localization::ErrorCode;

fn descriptorSet() -> Vec<u8> {
    let mut bytes = vec![0x0a, 0x2e, 0x0a, 0x07];
    bytes.extend_from_slice(b"t.proto");
    bytes.extend_from_slice(&[0x12, 0x04]);
    bytes.extend_from_slice(b"demo");
    bytes.extend_from_slice(&[0x22, 0x15, 0x0a, 0x03]);
    bytes.extend_from_slice(b"Msg");
    bytes.extend_from_slice(&[0x12, 0x0e, 0x0a, 0x02]);
    bytes.extend_from_slice(b"id");
    bytes.extend_from_slice(&[0x18, 0x01, 0x20, 0x01, 0x28, 0x05, 0x52, 0x02]);
    bytes.extend_from_slice(b"id");
    bytes.extend_from_slice(&[0x62, 0x06]);
    bytes.extend_from_slice(b"proto3");
    bytes
}

fn base64(bytes: &[u8]) -> String {
    base64::engine::general_purpose::STANDARD.encode(bytes)
}

fn upload(name: &str, messageType: &str, bytes: &[u8]) -> ProtobufDescriptorUpload {
    ProtobufDescriptorUpload {
        name: name.to_string(),
        defaultMessageType: messageType.to_string(),
        base64: base64(bytes),
    }
}

fn route(id: &str, messageType: &str, response: Option<&str>) -> ProtobufRoute<u8> {
    ProtobufRoute {
        id: id.to_string(),
        location: 0,
        messageType: messageType.to_string(),
        responseMessageType: response.map(str::to_string),
        schemaId: "00000000-0000-0000-0000-000000000001".to_string(),
    }
}

fn validators(enabled: bool) -> ValidateConfiguration {
    ValidateConfiguration {
        enabled,
        validators: vec![
            ValidatorConfiguration { id: ValidatorId::HtmlWellFormed, enabled: true },
            ValidatorConfiguration { id: ValidatorId::JsonSchema, enabled: true },
            ValidatorConfiguration { id: ValidatorId::W3cHtmlOnline, enabled: true },
        ],
        allowOnlineValidators: true,
        w3cEndpoint: "https://validator.w3.org/nu/?out=json".to_string(),
    }
}

#[test]
fn placesAreCounted() {
    let source: Vec<char> = "ab\ncd\n\ne".chars().collect();
    assert_eq!(lineAndColumn(&source, 0), (1, 1));
    assert_eq!(lineAndColumn(&source, 4), (2, 2));
    assert_eq!(lineAndColumn(&source, 7), (4, 1));
    assert!(isHtmlVoidElement("br") && !isHtmlVoidElement("div"));
}

#[test]
fn htmlStructureIsChecked() {
    let keys = |text: &str| -> Vec<String> {
        validateHtmlWellFormed(text).into_iter().map(|issue| issue.messageKey).collect()
    };
    assert!(keys("<!doctype html><p>a<br>b</p><!-- <x> --><img src=x>").is_empty());
    assert_eq!(keys("<div>"), vec!["validate.html.unclosedTag"]);
    assert_eq!(keys("</div>"), vec!["validate.html.unexpectedClosingTag"]);
    assert_eq!(
        keys("<b><i></b>")[..2],
        ["validate.html.mismatchedTag".to_string(), "validate.html.openedHere".to_string()]
    );
    assert_eq!(keys("text <div"), vec!["validate.html.unclosedTag"]);
    let issue = &validateHtmlWellFormed("\n <p>")[0];
    assert_eq!((issue.line, issue.column), (Some(2), Some(2)));
}

#[test]
fn descriptorsAreAdmitted() {
    let good = upload(" Demo ", "demo.Msg", &descriptorSet());
    assert!(validateDescriptorUpload(&good).is_ok());
    let admitted = admitDescriptor(&good).ok().unwrap();
    assert_eq!(admitted.bytes, descriptorSet());
    assert_eq!(
        admitDescriptor(&upload("x", "demo.Other", &descriptorSet())).err(),
        Some(ProtocolError::InvalidDescriptorMessageType)
    );
    assert_eq!(
        admitDescriptor(&upload("x", "demo.Msg", b"\xff\xff")).err(),
        Some(ProtocolError::InvalidDescriptor)
    );
    assert_eq!(
        admitDescriptor(&upload("x", "demo.Msg", b"")).err(),
        Some(ProtocolError::InvalidDescriptor)
    );
    assert_eq!(
        admitDescriptor(&upload("  ", "demo.Msg", &descriptorSet())).err(),
        Some(ProtocolError::InvalidDescriptor)
    );
    let entry = schemaEntry(1, &good);
    assert_eq!(entry.name, "Demo");
    assert_eq!(
        entry.descriptorPath,
        "protobufDescriptors/00000000-0000-0000-0000-000000000001.desc"
    );
    assert!(checkStoredSchema(&entry).is_ok());
    let (fresh, registered) = newSchemaEntry(&good);
    assert_eq!(pendingDescriptorName(fresh), format!(".{}.pending", registered.id));
    assert!(checkStoredSchema(&registered).is_ok());
    assert_ne!(registered.id, newSchemaEntry(&good).1.id);
    let mut foreign = schemaEntry(1, &good);
    foreign.descriptorPath = "../secret".to_string();
    assert_eq!(checkStoredSchema(&foreign), Err(ProtocolError::InvalidDescriptor));
    assert_eq!(pendingDescriptorName(1), ".00000000-0000-0000-0000-000000000001.pending");
    let pools = loadDescriptorPools(vec![], &entry, &descriptorSet()).ok().unwrap();
    assert_eq!(pools.len(), 1);
}

#[test]
fn failedUploadsLeaveNothing() {
    assert_eq!(UploadStep::Write.uploadDescriptor(true), Ok(UploadStep::Rename));
    assert_eq!(UploadStep::Write.uploadDescriptor(false), Ok(UploadStep::RemovePending));
    assert_eq!(UploadStep::RemovePending.uploadDescriptor(true), Err(ProtocolError::Storage));
    assert_eq!(UploadStep::Rename.uploadDescriptor(false), Ok(UploadStep::RemovePending));
    assert_eq!(UploadStep::Persist.uploadDescriptor(false), Ok(UploadStep::RemoveDescriptor));
    assert_eq!(UploadStep::RemoveDescriptor.uploadDescriptor(true), Err(ProtocolError::Storage));
    assert_eq!(UploadStep::Persist.uploadDescriptor(true), Ok(UploadStep::Publish));
    assert_eq!(UploadStep::Publish.uploadDescriptor(true), Ok(UploadStep::Done));
}

#[test]
fn routesMustNameKnownMessages() {
    let schema = schemaEntry(1, &upload("x", "demo.Msg", &descriptorSet()));
    let pools = loadDescriptorPools(vec![], &schema, &descriptorSet()).ok().unwrap();
    let schemas = vec![schema];
    let check = |routes: Vec<ProtobufRoute<u8>>, valid: Vec<bool>| {
        validateProtobufRoutes(&routes, &valid, &schemas, &pools)
    };
    assert!(check(vec![route("a", "demo.Msg", None)], vec![true]).is_ok());
    assert_eq!(
        check(vec![route("a", "demo.Msg", None)], vec![false]),
        Err(ProtocolError::InvalidProtobufRoute)
    );
    assert!(check(vec![route("a", "demo.Nope", None)], vec![true]).is_err());
    assert!(check(vec![route("a", "demo.Msg", Some("demo.Nope"))], vec![true]).is_err());
    assert!(check(
        vec![route("a", "demo.Msg", None), route("a", "demo.Msg", None)],
        vec![true, true]
    )
    .is_err());
    let current: ProtobufConfiguration<u8> =
        ProtobufConfiguration { enabled: false, schemas, routes: vec![] };
    let wish = |kind: &str| ProtobufConfigurationUpdate {
        enabled: true,
        routes: vec![route("a", kind, None)],
    };
    let candidate =
        current.replaceProtobufConfiguration(wish("demo.Msg"), &vec![true], &pools).unwrap();
    assert!(candidate.enabled);
    assert_eq!((candidate.routes.len(), candidate.schemas.len()), (1, 1));
    assert_eq!(
        current.replaceProtobufConfiguration(wish("demo.Nope"), &vec![true], &pools).unwrap_err(),
        ProtocolError::InvalidProtobufRoute
    );
    assert_eq!(selectProtobufRoute(&vec![false, true, true]), Some(1));
    assert_eq!(selectProtobufRoute(&vec![false]), None);
}

#[test]
fn grpcFramesAreUnwrapped() {
    let kind = "application/grpc+proto";
    assert_eq!(grpcPayload(kind, &vec![0, 0, 0, 0, 2, 8, 42]), Ok(vec![8, 42]));
    assert_eq!(grpcPayload(kind, &vec![0, 0, 0]), Err("grpcFrameTooShort"));
    assert_eq!(grpcPayload(kind, &vec![1, 0, 0, 0, 0]), Err("grpcCompressionUnsupported"));
    assert_eq!(grpcPayload(kind, &vec![0, 0, 0, 0, 3, 8, 42]), Err("grpcFrameLengthMismatch"));
    assert_eq!(grpcPayload("application/x-protobuf", &vec![8, 42]), Ok(vec![8, 42]));
}

#[test]
fn messagesAreDecodedAsJson() {
    let schema = schemaEntry(1, &upload("x", "demo.Msg", &descriptorSet()));
    let pools = loadDescriptorPools(vec![], &schema, &descriptorSet()).ok().unwrap();
    let routes = vec![route("a", "demo.Msg", None)];
    let decode = |truncated: bool, enabled: bool, matched: bool, pools: &Vec<SchemaPool>, bytes: &[u8]| {
        decodeProtobuf(
            truncated,
            enabled,
            &routes,
            &vec![matched],
            pools,
            DecodeSide::Response,
            "application/x-protobuf",
            &bytes.to_vec(),
        )
    };
    let decoded = decode(false, true, true, &pools, &[8, 42]);
    assert_eq!(decoded.messageType, Some("demo.Msg".to_string()));
    assert!(decoded.json.unwrap().contains("42"));
    assert_eq!(
        decode(true, true, true, &pools, &[8, 42]).decodeError,
        Some("bodyTruncated".to_string())
    );
    assert_eq!(
        decode(false, false, true, &pools, &[8, 42]).decodeError,
        Some("protobufDisabled".to_string())
    );
    assert_eq!(
        decode(false, true, false, &pools, &[8, 42]).decodeError,
        Some("protobufRouteNotFound".to_string())
    );
    assert_eq!(
        decode(false, true, true, &vec![], &[8, 42]).decodeError,
        Some("descriptorUnavailable".to_string())
    );
    assert_eq!(
        decode(false, true, true, &pools, &[0xff]).decodeError,
        Some("protobufDecodeFailed".to_string())
    );
    assert!(loadDescriptor(&descriptorSet(), "demo.Msg").is_ok());
}

#[test]
fn protobufUpdatesKeepTheirSchemas() {
    let mut configuration: ProtobufConfiguration<u8> = ProtobufConfiguration::new();
    configuration.schemas.push(schemaEntry(1, &upload("x", "demo.Msg", &descriptorSet())));
    let replaced = configuration.replaced(ProtobufConfigurationUpdate {
        enabled: true,
        routes: vec![route("a", "demo.Msg", None)],
    });
    assert!(replaced.enabled);
    assert_eq!(replaced.schemas.len(), 1);
    assert_eq!(replaced.routes.len(), 1);
}

#[test]
fn validatorsAreConfigured() {
    let built = ValidateConfiguration::default();
    assert_eq!(built.w3cEndpoint, "https://validator.w3.org/nu/?out=json");
    assert!(validateValidateConfiguration(&validators(true)).is_ok());
    let mut twice = validators(true);
    twice.validators.push(ValidatorConfiguration { id: ValidatorId::JsonSchema, enabled: true });
    assert_eq!(
        validateValidateConfiguration(&twice),
        Err(ProtocolError::InvalidValidateConfiguration)
    );
    let mut odd = validators(true);
    odd.w3cEndpoint = "ftp://x".to_string();
    assert!(validateValidateConfiguration(&odd).is_err());
    assert!(checkScheme(&Some("https".to_string())) && !checkScheme(&None));
    assert!(validatorEnabled(&validators(true), ValidatorId::JsonSchema));
    assert!(isTextualContent("Text/HTML") && isTextualContent("application/problem+json"));
    assert!(!isTextualContent("image/png"));
}

#[test]
fn jsonSyntaxIsChecked() {
    assert!(validateJsonSyntax("{\"a\":[1,2]}").is_empty());
    let issues = validateJsonSyntax("{\n \"a\": }");
    assert_eq!(issues[0].messageKey, "validate.json.invalidSyntax");
    assert_eq!((issues[0].line, issues[0].column), (Some(2), Some(7)));
    assert!(reportJsonError(None).is_empty());
    assert_eq!(reportJsonError(Some((3, 4)))[0].line, Some(3));
}

#[test]
fn bodiesAreSentOnlyOnConfirmation() {
    let html = b"<p></p>".to_vec();
    assert_eq!(
        validateBody(&validators(true), "image/png", &html, ValidatorId::HtmlWellFormed, false).err(),
        Some(ProtocolError::UnsupportedValidationContent)
    );
    assert_eq!(
        validateBody(&validators(false), "text/html", &html, ValidatorId::HtmlWellFormed, false).err(),
        Some(ProtocolError::ValidatorDisabled)
    );
    assert_eq!(
        validateBody(&validators(true), "text/html", &html, ValidatorId::W3cHtmlOnline, false).err(),
        Some(ProtocolError::OnlineUploadConfirmationRequired)
    );
    assert_eq!(
        validateBody(&validators(true), "text/html", &vec![0xff], ValidatorId::JsonSchema, false).err(),
        Some(ProtocolError::UnsupportedValidationContent)
    );
    assert!(matches!(
        validateBody(&validators(true), "text/html", &html, ValidatorId::W3cHtmlOnline, true),
        Ok(BodyValidation::Online { text, .. }) if text == "<p></p>"
    ));
    assert!(matches!(
        validateBody(&validators(true), "text/html", &html, ValidatorId::HtmlWellFormed, false),
        Ok(BodyValidation::Checked(issues)) if issues.is_empty()
    ));
}

#[test]
fn onlineAnswersAreReported() {
    let message = |kind: Option<&str>, line: Option<u64>| OnlineMessage {
        kind: kind.map(str::to_string),
        lastLine: line,
        lastColumn: Some(2),
    };
    let issues = reportMessages(&vec![
        message(Some("error"), Some(3)),
        message(Some("info"), None),
        message(Some("warning"), None),
    ]);
    assert_eq!(issues[0].severity, ValidationSeverity::Error);
    assert_eq!(issues[0].line, Some(3));
    assert_eq!(issues[1].severity, ValidationSeverity::Info);
    assert_eq!(issues[2].severity, ValidationSeverity::Warning);
    let answer = b"{\"messages\":[{\"type\":\"error\",\"lastLine\":7}]}".to_vec();
    assert_eq!(validateOnlineHtml(true, &answer).unwrap()[0].line, Some(7));
    let listed = readAnswer(
        "{\"messages\":[{\"type\":\"info warning\",\"firstLine\":1,\"lastLine\":2,\"lastColumn\":3},\
         {\"type\":5,\"lastLine\":-1,\"lastColumn\":\"x\"},7]}",
    );
    assert_eq!(listed.len(), 3);
    assert_eq!(listed[0].kind.as_deref(), Some("info warning"));
    assert_eq!((listed[0].lastLine, listed[0].lastColumn), (Some(2), Some(3)));
    assert!(listed[1].kind.is_none() && listed[1].lastLine.is_none());
    assert!(listed[1].lastColumn.is_none() && listed[2].kind.is_none());
    assert_eq!(reportMessages(&listed)[0].severity, ValidationSeverity::Warning);
    assert!(readAnswer("{\"messages\":5}").is_empty());
    assert!(validateOnlineHtml(true, &b"[1]".to_vec()).unwrap().is_empty());
    assert_eq!(
        validateOnlineHtml(false, &answer).err(),
        Some(ProtocolError::OnlineValidationFailed)
    );
    assert_eq!(
        validateOnlineHtml(true, &b"nope".to_vec()).err(),
        Some(ProtocolError::OnlineValidationFailed)
    );
    assert_eq!(validationIssue("k", 1, 2).column, Some(2));
}

#[test]
fn reportsReplaceTheirPredecessors() {
    let report = |transaction: &str, validator: ValidatorId, at: u64| ValidationReport {
        transactionId: transaction.to_string(),
        validatorId: validator,
        issues: vec![],
        validatedAtMilliseconds: at,
    };
    let mut reports = ValidationReports::new();
    reports.store(report("a", ValidatorId::JsonSchema, 1));
    reports.store(report("a", ValidatorId::HtmlWellFormed, 2));
    reports.store(report("a", ValidatorId::JsonSchema, 3));
    let kept = reports.validationReports("a");
    assert_eq!(kept.len(), 2);
    assert!(kept.iter().any(|report| report.validatedAtMilliseconds == 3));
    assert!(kept.iter().all(|report| report.validatedAtMilliseconds != 1));
    assert!(reports.validationReports("b").is_empty());
    for i in 0..600 {
        reports.store(report(&format!("t{i:03}"), ValidatorId::JsonSchema, 10 + i));
    }
    assert_eq!(reports.entries.len(), 512);
    assert!(reports.validationReports("a").is_empty());
    assert!(reports.validationReports("t087").is_empty());
    assert_eq!(reports.validationReports("t088").len(), 1);
    assert_eq!(reports.validationReports("t599").len(), 1);
}

#[test]
fn protocolFailuresAreAnswered() {
    let storage = mapProtocolError(ProtocolError::Storage);
    assert_eq!((storage.status, storage.code), (500, ErrorCode::ToolOperationFailed));
    let online = mapProtocolError(ProtocolError::OnlineValidationFailed);
    assert_eq!(online.status, 500);
    for error in [
        ProtocolError::InvalidDescriptor,
        ProtocolError::InvalidDescriptorMessageType,
        ProtocolError::InvalidProtobufRoute,
        ProtocolError::InvalidValidateConfiguration,
        ProtocolError::UnsupportedValidationContent,
        ProtocolError::ValidatorDisabled,
        ProtocolError::OnlineUploadConfirmationRequired,
    ] {
        let answer = mapProtocolError(error);
        assert_eq!((answer.status, answer.code), (400, ErrorCode::InvalidToolConfiguration));
    }
    assert_eq!(
        protocolConfigurationIoError(ProtocolError::InvalidProtobufRoute),
        "保存的 Protobuf 路由无效"
    );
    let mut current = 1u8;
    assert_eq!(publishConfiguration(&mut current, 2, false), Err(ProtocolError::Storage));
    assert_eq!(current, 1);
    assert!(publishConfiguration(&mut current, 2, true).is_ok());
    assert_eq!(current, 2);
}
