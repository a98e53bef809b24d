use combine::char::{alpha_num, digit, letter, spaces};
use combine::{many, many1, token, Parser};
use kaleidscope::token::{ident, number, number_literal, ParseError, Token};

const SAMPLES: [&str; 24] = [
    "", "a", "a12", "a_a", "_x", "a a", "abc  + 1", "x1(y)", "1a", "12", "1.234", "1.234  rest",
    ".5", "5.", "1.2.3", "..", ".", "7up", "+", "(a)", "  a", "A_b_C9 ,", "9.75)", "__",
];

#[test]
fn identifiers_agree_with_a_combinator_grammar() {
    for text in SAMPLES.iter() {
        let mut word = letter()
            .or(token('_'))
            .and(many::<String, _>(alpha_num().or(token('_'))))
            .skip(spaces());
        match word.parse(*text) {
            Ok(((first, rest), remain)) => {
                let name = format!("{}{}", first, rest);
                assert_eq!(ident(text), Ok((Token::Identifier(name), remain)), "text {:?}", text);
            }
            Err(_) => assert_eq!(ident(text), Err(ParseError::NoMatch), "text {:?}", text),
        }
    }
}

#[test]
fn numbers_agree_with_a_combinator_grammar() {
    for text in SAMPLES.iter() {
        let mut run = many1::<String, _>(digit().or(token('.'))).skip(spaces());
        match run.parse(*text) {
            Ok((literal, remain)) => {
                assert_eq!(number_literal(&literal), literal.parse::<f64>().is_ok());
                if literal.parse::<f64>().is_ok() {
                    assert_eq!(number(text), Ok((Token::Number(literal), remain)), "text {:?}", text);
                } else {
                    assert_eq!(number(text), Err(ParseError::MalformedNumber), "text {:?}", text);
                }
            }
            Err(_) => assert_eq!(number(text), Err(ParseError::NoMatch), "text {:?}", text),
        }
    }
}
