use text_parsers::parse::{
    Incomplete, NotFound, StreamingChoice, StreamingCompose, StreamingError, StreamingOk,
    StreamingParser, StreamingResult, StreamingSequence,
};
use text_parsers::primitives::quote::{double_quoted_stream, single_quoted_stream};
use text_parsers::primitives::whitespace::whitespace_stream;

#[test]
fn streaming_tuples() {
    fn q(s: &&'static str) -> StreamingResult<&'static str, &'static str, NotFound, Incomplete> {
        single_quoted_stream.map_failures(|_| Incomplete).parse_stream(s)
    }
    fn d(s: &&'static str) -> StreamingResult<&'static str, &'static str, NotFound, Incomplete> {
        double_quoted_stream.map_failures(|_| Incomplete).parse_stream(s)
    }
    assert_eq!(
        StreamingSequence::and((q, d)).parse_stream(&"'a'\"b\"c"),
        Ok(StreamingOk::Complete(("a", "b"), "c"))
    );
    assert_eq!(
        StreamingSequence::and((q, d)).parse_stream(&"'a'\"b"),
        Err(StreamingError::Incomplete(Incomplete))
    );
    assert_eq!(
        StreamingSequence::and((q, d, q)).parse_stream(&"'a'\"b\"c"),
        Err(StreamingError::Error(NotFound))
    );
    assert_eq!(
        StreamingChoice::or((q, d)).parse_stream(&"\"b\"c"),
        Ok(StreamingOk::Complete("b", "c"))
    );
    assert_eq!(
        StreamingChoice::or((q, d)).parse_stream(&"b"),
        Err(StreamingError::Error(NotFound))
    );
    assert_eq!(
        StreamingChoice::or((q, d, q)).parse_stream(&"'b"),
        Err(StreamingError::Incomplete(Incomplete))
    );
    assert_eq!(
        StreamingCompose::map((q, d)).parse_stream(&"'\"b\"x'c"),
        Ok(StreamingOk::Complete("b", "c"))
    );
    assert_eq!(
        StreamingCompose::map((q, d)).parse_stream(&"'b'c"),
        Err(StreamingError::Error(NotFound))
    );
    let ws = whitespace_stream::<&str>.map_failures(|_| Incomplete);
    let ws2 = whitespace_stream::<&str>.map_failures(|_| Incomplete);
    assert_eq!(
        StreamingSequence::and((ws, ws2)).parse_stream(&"  "),
        Err(StreamingError::Failure(Incomplete))
    );
    assert_eq!(
        StreamingParser::and(q, d).parse_stream(&"'a'\"b\""),
        Ok(StreamingOk::Complete(("a", "b"), ""))
    );
    assert_eq!(StreamingParser::or(q, d).parse_stream(&"\"b\""), Ok(StreamingOk::Complete("b", "")));
    assert_eq!(
        StreamingParser::then(q, d).parse_stream(&"'\"b\"'"),
        Ok(StreamingOk::Complete("b", ""))
    );
}

