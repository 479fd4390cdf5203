//! Parsers of tokens, and reading tokens.

use mssql_tds::io::token_stream::{
    DoneInProcTokenParser, DoneProcTokenParser, DoneTokenParser, EnvChangeTokenParser,
    ErrorTokenParser, GenericTokenParserRegistry, InfoTokenParser, LoginAckTokenParser,
    ParserContext, TokenParserRegistry, TokenParsers,
};
use mssql_tds::token::TokenType;
use std::collections::HashMap;

#[test]
fn test_parser_context_default() {
    let context = ParserContext::default();
    match context {
        ParserContext::Empty(_) => {}
        _ => panic!("Default ParserContext should be None variant"),
    }
}

#[test]
fn test_generic_token_parser_registry_has_all_parsers() {
    let registry = GenericTokenParserRegistry::default();

    // Test that all expected token types have parsers
    assert!(registry.has_parser(&TokenType::EnvChange));
    assert!(registry.has_parser(&TokenType::LoginAck));
    assert!(registry.has_parser(&TokenType::Done));
    assert!(registry.has_parser(&TokenType::DoneInProc));
    assert!(registry.has_parser(&TokenType::DoneProc));
    assert!(registry.has_parser(&TokenType::Info));
    assert!(registry.has_parser(&TokenType::Error));
    assert!(registry.has_parser(&TokenType::FeatureExtAck));
    assert!(registry.has_parser(&TokenType::FedAuthInfo));
    assert!(registry.has_parser(&TokenType::ColMetadata));
    assert!(registry.has_parser(&TokenType::Row));
    assert!(registry.has_parser(&TokenType::Order));
    assert!(registry.has_parser(&TokenType::ReturnStatus));
    assert!(registry.has_parser(&TokenType::NbcRow));
    assert!(registry.has_parser(&TokenType::ReturnValue));
}

#[test]
fn test_generic_token_parser_registry_get_parser() {
    let registry = GenericTokenParserRegistry::default();

    // Test that we can get parsers for supported token types
    assert!(registry.get_parser(&TokenType::EnvChange).is_some());
    assert!(registry.get_parser(&TokenType::Done).is_some());
    assert!(registry.get_parser(&TokenType::Info).is_some());
}

#[test]
fn test_generic_token_parser_registry_unsupported_token() {
    let registry = GenericTokenParserRegistry::default();

    // Test with an unsupported token type (using a type that's not registered)
    // This tests the negative case
    let unsupported_type = TokenType::TabName; // This token type is not registered in the default registry
    assert!(!registry.has_parser(&unsupported_type));
    assert!(registry.get_parser(&unsupported_type).is_none());
}

#[test]
fn test_token_parsers_from_conversions() {
    // Test that all From implementations work correctly
    let env_change_parser = EnvChangeTokenParser::default();
    let _: TokenParsers = env_change_parser.into();

    let login_ack_parser = LoginAckTokenParser::default();
    let _: TokenParsers = login_ack_parser.into();

    let done_parser = DoneTokenParser {};
    let _: TokenParsers = done_parser.into();

    let done_in_proc_parser = DoneInProcTokenParser::default();
    let _: TokenParsers = done_in_proc_parser.into();

    let done_proc_parser = DoneProcTokenParser::default();
    let _: TokenParsers = done_proc_parser.into();

    let info_parser = InfoTokenParser {};
    let _: TokenParsers = info_parser.into();

    let error_parser = ErrorTokenParser {};
    let _: TokenParsers = error_parser.into();
}

#[test]
fn test_parser_context_variants() {
    // Test None variant
    let context_none = ParserContext::Empty(());
    match context_none {
        ParserContext::Empty(_) => {}
        _ => panic!("Expected ParserContext::Empty"),
    }

    // Test ColumnMetadata variant (would need actual ColMetadataToken to construct)
    // This tests that the variant exists and can be pattern matched
}

struct MockTokenParserRegistry {
    parsers: HashMap<u8, TokenParsers>,
}

impl MockTokenParserRegistry {
    fn new() -> Self {
        Self {
            parsers: HashMap::new(),
        }
    }

    fn add_parser(&mut self, token_type: TokenType, parser: TokenParsers) {
        self.parsers.insert(token_type.code(), parser);
    }
}

impl TokenParserRegistry for MockTokenParserRegistry {
    fn parser(&self, token_type: TokenType) -> Option<TokenParsers> {
        self.parsers.get(&token_type.code()).copied()
    }

    fn has_parser(&self, token_type: &TokenType) -> bool {
        self.parsers.contains_key(&token_type.code())
    }

    fn get_parser(&self, token_type: &TokenType) -> Option<&TokenParsers> {
        self.parsers.get(&token_type.code())
    }
}

#[test]
fn test_custom_token_parser_registry() {
    let mut registry = MockTokenParserRegistry::new();

    // Initially empty
    assert!(!registry.has_parser(&TokenType::Done));

    // Add a parser
    registry.add_parser(TokenType::Done, TokenParsers::from(DoneTokenParser {}));

    // Now it should have the parser
    assert!(registry.has_parser(&TokenType::Done));
    assert!(registry.get_parser(&TokenType::Done).is_some());
}

#[test]
fn test_parser_registry_count() {
    let registry = GenericTokenParserRegistry::default();
    let expected_count = 15; // Number of token types registered in default()

    let token_types = [
        TokenType::EnvChange,
        TokenType::LoginAck,
        TokenType::Done,
        TokenType::DoneInProc,
        TokenType::DoneProc,
        TokenType::Info,
        TokenType::Error,
        TokenType::FeatureExtAck,
        TokenType::FedAuthInfo,
        TokenType::ColMetadata,
        TokenType::Row,
        TokenType::Order,
        TokenType::ReturnStatus,
        TokenType::NbcRow,
        TokenType::ReturnValue,
    ];

    let count = token_types
        .iter()
        .filter(|tt| registry.has_parser(tt))
        .count();
    assert_eq!(count, expected_count);
}
