use slp_client::chunks::split_into_chunks;

#[test]
fn chunks_keep_short_input_together() {
    assert_eq!(split_into_chunks("a\nb\nc", 100), vec!["a\nb\nc\n".to_string()]);
    assert_eq!(split_into_chunks("a\n", 100), vec!["a\n".to_string()]);
    assert_eq!(split_into_chunks("", 100), Vec::<String>::new());
}

#[test]
fn chunks_split_at_the_bound() {
    assert_eq!(
        split_into_chunks("aa\nbb\ncc", 3),
        vec!["aa\n".to_string(), "bb\n".to_string(), "cc\n".to_string()]
    );
    // Two lines fit together, the third starts a new chunk.
    assert_eq!(
        split_into_chunks("a\nb\ncc", 3),
        vec!["a\nb\n".to_string(), "cc\n".to_string()]
    );
}

#[test]
fn chunks_give_an_oversized_line_its_own_chunk() {
    assert_eq!(
        split_into_chunks("x\ntoolong", 3),
        vec!["x\n".to_string(), "toolong\n".to_string()]
    );
    // An oversized first line still closes the (empty) open chunk first.
    assert_eq!(
        split_into_chunks("toolong", 3),
        vec!["".to_string(), "toolong\n".to_string()]
    );
}

#[test]
fn chunks_strip_carriage_returns_before_newlines() {
    assert_eq!(split_into_chunks("a\r\nb", 100), vec!["a\nb\n".to_string()]);
    // A carriage return with no newline after it stays.
    assert_eq!(split_into_chunks("a\r", 100), vec!["a\r\n".to_string()]);
}

#[test]
fn chunks_concatenate_to_the_terminated_lines() {
    let input = "one\ntwo\nthree\nfour";
    let rebuilt: String = split_into_chunks(input, 8).concat();
    assert_eq!(rebuilt, "one\ntwo\nthree\nfour\n");
}
