use slackify_markdown::markdown::slackify;

#[test]
fn test_header_to_bold() {
    let input = "## This is a title".to_string();
    let actual = slackify(input);
    let expected = "*This is a title*\n";
    assert_eq!(actual, expected);
}

#[test]
fn test_italics() {
    let input = "I want some things to be *italics*".to_string();
    let actual = slackify(input);
    let expected = "I want some things to be _italics_";
    assert_eq!(actual, expected);
}

#[test]
fn test_bold() {
    let input = "Make this text **bold bold bold** please".to_string();
    let actual = slackify(input);
    let expected = "Make this text *bold bold bold* please";
    assert_eq!(actual, expected);
}

#[test]
fn test_inline_code() {
    let input = "redacted redacted redacted `421` situation".to_string();
    let actual = slackify(input);
    let expected = "redacted redacted redacted `421` situation".to_string();
    assert_eq!(actual, expected);
}

#[test]
fn test_hyperlinks() {
    let input = "This string includes a [https://hyperlink.com.au](https://hyperlink.com.au)"
        .to_string();
    let actual = slackify(input);
    let expected = "This string includes a https://hyperlink.com.au".to_string();
    assert_eq!(actual, expected);
}

#[test]
fn test_hyperlink_two() {
    let input =
        "The 44th President was [Barack Obama](https://en.wikipedia.org/wiki/Barack_Obama)."
            .to_string();
    let actual = slackify(input);
    let expected = "The 44th President was Barack Obama.";
    assert_eq!(actual, expected);
}

#[test]
fn test_quote_formatting() {
    let input = "The following is a quote:
> Education is a system of imposed ignorance. - N. Chomsky
The end."
        .to_string();
    let expected = "The following is a quote:
> Education is a system of imposed ignorance. - N. Chomsky
The end.
";
    let actual = slackify(input);
    assert_eq!(actual, expected);
}

#[test]
fn test_quote_chars_formatting() {
    let input = "- Friday was a bit disrupted by \"Permissions pain ðŸ˜­\", so today I will still be ...".to_string();
    let expected = "â€¢ Friday was a bit disrupted by \"Permissions pain ðŸ˜­\", so today I will still be ...\n".to_string();
    let actual = slackify(input);

    assert_eq!(actual, expected);
}

#[test]
fn test_ordered_lists() {
    let input = "1. This is the first item
2. This is the 2nd item".to_string();
    let expected = "1. This is the first item
2. This is the 2nd item\n".to_string();
    let actual = slackify(input);

    assert_eq!(actual, expected);
}

#[test]
fn test_list_subitem_formatting() {
    let input = "- âŒ— redacted redacted redacted redacted redacted
- ðŸ“… Morning meeting with Tom and Jerry about A Thing
- ðŸ“… Datalake 2.0 Planning meeting
- ðŸ“… D.Eng Observability meeting
- Create JIRA epics for the goals that I own
- Cleaning up in AWS
    - Sub-item 1
    - Sub-item 2
- Got heads-up from redacted redacted redacted redacted redacted redacted
    - redacted redacted redacted redacted redacted redacted redacted errors."
        .to_string();
    let actual = slackify(input);
    let expected = "â€¢ âŒ— redacted redacted redacted redacted redacted
â€¢ ðŸ“… Morning meeting with Tom and Jerry about A Thing
â€¢ ðŸ“… Datalake 2.0 Planning meeting
â€¢ ðŸ“… D.Eng Observability meeting
â€¢ Create JIRA epics for the goals that I own
â€¢ Cleaning up in AWS
    â€¢ Sub-item 1
    â€¢ Sub-item 2

â€¢ Got heads-up from redacted redacted redacted redacted redacted redacted
    â€¢ redacted redacted redacted redacted redacted redacted redacted errors.\n\n"
        .to_string();
    assert_eq!(actual, expected);
}
