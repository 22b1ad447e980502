use gosub::testing::tree_construction::{
    data, document, error_5, error_6, parse_fixture, ErrorSpec, Position, ScriptMode, TestSpec,
};

    fn parse_test(i: &str) -> (String, TestSpec) {
        gosub::testing::tree_construction::test(i.trim_start()).unwrap()
    }

    #[test]
    fn parse_data() {
        let (_, s) = data("#data\n         Test \n#errors\n".into()).unwrap();
        assert_eq!(s, "Test \n");

        let (_, s) = data("#data\n         Test \n#errors".into()).unwrap();
        assert_eq!(s, "Test \n");

        let (_, s) = data(
            "#data\n<!DOCTYPE html PUBLIC \"-//W3C//DTD XHTML 1.0 Frameset//EN\"
            \"http://www.w3.org/TR/xhtml1/DTD/xhtml1-frameset.dtd\"><p><table>\n#errors"
                .into(),
        )
        .unwrap();

        assert_eq!(
            s,
            "<!DOCTYPE html PUBLIC \"-//W3C//DTD XHTML 1.0 Frameset//EN\"\n            \"http://www.w3.org/TR/xhtml1/DTD/xhtml1-frameset.dtd\"><p><table>\n"
        );
    }

    #[test]
    fn parse_document() {
        let (_, doc) = document(
            r#"
#document
| <html>
|   <head>
|   <body>
|     "Test"

"#
            .trim_start()
            .into(),
        )
        .unwrap();
        assert_eq!(
            doc.to_string(),
            "| <html>\n|   <head>\n|   <body>\n|     \"Test\""
        );
    }

    #[test]
    fn tests1_dat_1() {
        let (_, test) = parse_test(
            r#"
#data
Test
#errors
(1,0): expected-doctype-but-got-chars
#document
| <html>
|   <head>
|   <body>
|     "Test"

"#,
        );

        assert_eq!(test.data, "Test");
        assert_eq!(
            test.errors,
            &[ErrorSpec::Location {
                pos: Position { line: 1, col: 0 },
                message: "expected-doctype-but-got-chars".into(),
            }]
        );
        assert_eq!(
            test.document,
            "| <html>\n|   <head>\n|   <body>\n|     \"Test\""
        );
    }

    #[test]
    fn quirks01_dat_1() {
        let (_, test) = parse_test(
            r#"
#data
<!DOCTYPE html PUBLIC "-//W3C//DTD XHTML 1.0 Frameset//EN"
"http://www.w3.org/TR/xhtml1/DTD/xhtml1-frameset.dtd"><p><table>
#errors
(2,54): unknown-doctype
(2,64): eof-in-table
#document
| <!DOCTYPE html "-//W3C//DTD XHTML 1.0 Frameset//EN" "http://www.w3.org/TR/xhtml1/DTD/xhtml1-frameset.dtd">
| <html>
|   <head>
|   <body>
|     <p>
|     <table>

"#,
        );

        assert_eq!(test.errors.len(), 2);
    }

    #[test]
    fn quirks01_dat_15() {
        let (_, test) = parse_test(
            r#"
#data
<!DOCTYPE html SYSTEM "http://www.ibm.com/data/dtd/v11/ibmxhtml1-transitional.dtd"><p><table>
#errors
(1,83): unknown-doctype
(1,93): eof-in-table
#document
| <!DOCTYPE html "" "http://www.ibm.com/data/dtd/v11/ibmxhtml1-transitional.dtd">
| <html>
|   <head>
|   <body>
|     <p>
|       <table>

"#,
        );

        assert_eq!(test.errors.len(), 2);
    }

    #[test]
    fn comments01_dat_13() {
        let (_, test) = parse_test(
            r#"
#data
FOO<!-- BAR --!>BAZ
#errors
(1,3): expected-doctype-but-got-chars
(1,15): unexpected-bang-after-double-dash-in-comment
#new-errors
(1:16) incorrectly-closed-comment
#document
| <html>
|   <head>
|   <body>
|     "FOO"
|     <!--  BAR  -->
|     "BAZ"

"#,
        );

        assert_eq!(test.errors.len(), 2);
        assert_eq!(test.new_errors.len(), 1);
    }

    #[test]
    fn comments01_dat_42() {
        let (_, test) = parse_test(
            r#"
#data
FOO<!-- BAR --!
>BAZ
#errors
(1,3): expected-doctype-but-got-chars
(2:5) eof-in-comment
#new-errors
(2:5) eof-in-comment
#document
| <html>
|   <head>
|   <body>
|     "FOO"
|     <!--  BAR --!
>BAZ -->

"#,
        );

        assert!(test.document.ends_with(">BAZ -->"));
    }

    #[test]
    fn tables01_dat_288() {
        let (_, test) = parse_test(
            r"
#data
<div><table><svg><foreignObject><select><table><s>
#errors
1:1: Expected a doctype token
1:13: 'svg' tag isn't allowed here. Currently open tags: html, body, div, table.
1:33: 'select' tag isn't allowed here. Currently open tags: html, body, div, table, svg, foreignobject.
1:41: 'table' tag isn't allowed here. Currently open tags: html, body, div, table, svg, foreignobject, select.
1:41: 'table' tag isn't allowed here. Currently open tags: html, body, div, table, svg, foreignobject.
1:48: 's' tag isn't allowed here. Currently open tags: html, body, div, table.
1:51: Premature end of file. Currently open tags: html, body, div, table, s.
#document
| <html>
|   <head>
|   <body>
|     <div>
|       <svg svg>
|         <svg foreignObject>
|           <select>
|       <table>
|       <s>
|       <table>

",
        );

        assert_eq!(test.errors.len(), 7);
    }

    #[test]
    fn template_dat_61() {
        let (_, test) = parse_test(
            r"
#data
<div><template><div><span></template><b>
#errors
 * (1,6) missing DOCTYPE
 * (1,38) mismatched template end tag
 * (1,41) unexpected end of file
#document
| <html>
|   <head>
|   <body>
|     <div>
|       <template>
|         content
|           <div>
|             <span>
|       <b>

",
        );

        assert_eq!(test.errors.len(), 3);
    }

    #[test]
    fn template_dat_1659() {
        let (_, test) = gosub::testing::tree_construction::test(
            r#"            
#data
<!DOCTYPE HTML><template><tr><td>cell</td></tr>a</template>
#errors
(1,59): foster-parenting-character
#document
| <!DOCTYPE html>
| <html>
|   <head>
|     <template>
|       content
|         <tr>
|           <td>
|             "cell"
|         "a"
|   <body>

"#
            .trim_start()
            .into(),
        )
        .unwrap();

        assert_eq!(test.errors.len(), 1);
    }

    #[test]
    fn template_data_148() {
        let (_, test) = parse_test(
            r"
#data
<table><template></template><div></div>
#errors
no doctype
bad div in table
bad /div in table
eof in table
#document
| <html>
|   <head>
|   <body>
|     <div>
|     <table>
|       <template>
|         content

",
        );

        assert_eq!(test.errors.len(), 4);
    }

    #[test]
    fn template_dat_1613() {
        let (_, test) = parse_test(
            r#"
#data
<template><form><input name="q"></form><div>second</div></template>
#errors
#document-fragment
template
#document
| <template>
|   content
|     <form>
|       <input>
|         name="q"
|     <div>
|       "second"

"#,
        );

        assert_eq!(test.document_fragment, Some("template".into()));
    }

    #[test]
    fn webkit02_dat_13() {
        let (_, test) = parse_test(
            r#"
#data
<p id="status"><noscript><strong>A</strong></noscript><span>B</span></p>
#errors
(1,15): expected-doctype-but-got-start-tag
#script-on
#document
| <html>
|   <head>
|   <body>
|     <p>
|       id="status"
|       <noscript>
|         "<strong>A</strong>"
|       <span>
|         "B"

"#,
        );

        assert!(matches!(test.script_mode, ScriptMode::ScriptOn));
    }

    #[test]
    fn webkit02_dat_29() {
        let (_, test) = parse_test(
            r#"
#data
<p id="status"><noscript><strong>A</strong></noscript><span>B</span></p>
#errors
(1,15): expected-doctype-but-got-start-tag
#script-off
#document
| <html>
|   <head>
|   <body>
|     <p>
|       id="status"
|       <noscript>
|         <strong>
|           "A"
|       <span>
|         "B"

"#,
        );

        assert!(matches!(test.script_mode, ScriptMode::ScriptOff));
    }

    #[test]
    fn tests08_dat_1() {
        let (_, test) = parse_test(
            r#"
#data
<div>
<div></div>
</span>x
#errors
(1,5): expected-doctype-but-got-start-tag
(3,7): unexpected-end-tag
(3,8): expected-closing-tag-but-got-eof
#document
| <html>
|   <head>
|   <body>
|     <div>
|       "
"
|       <div>
|       "
x"

"#,
        );

        assert_eq!(test.errors.len(), 3);
        assert!(test.document.ends_with("\"\nx\""));
    }

    #[test]
    fn parse_error_5() {
        let (_, error) =
            error_5("52: End of file seen and there were open elements.\n".into()).unwrap();

        assert_eq!(
            error,
            ErrorSpec::Line {
                line: 52,
                message: "End of file seen and there were open elements.".into(),
            },
        );
    }

    #[test]
    fn parse_error_6() {
        let (_, error) =
            error_6("(1:44-1:49) non-void-html-element-start-tag-with-trailing-solidus\n".into())
                .unwrap();

        assert_eq!(
            error,
            ErrorSpec::Span {
                start: Position { line: 1, col: 44 },
                end: Position { line: 1, col: 49 },
                message: "non-void-html-element-start-tag-with-trailing-solidus".into(),
            }
        );
    }

    #[test]
    fn foreign_fragment_dat_169() {
        let (_, test) = parse_test(
            r#"
#data
<b></b><mglyph/><i></i><malignmark/><u></u><ms/>X
#errors
51: Self-closing syntax (“/>”) used on a non-void HTML element. Ignoring the slash and treating as a start tag.
52: End of file seen and there were open elements.
#new-errors
(1:44-1:49) non-void-html-element-start-tag-with-trailing-solidus
#document-fragment
math ms
#document
| <b>
| <math mglyph>
| <i>
| <math malignmark>
| <u>
| <ms>
|   "X"

"#,
        );

        assert_eq!(test.errors.len(), 2);
        let error = test.errors.first().unwrap();
        assert!(matches!(error, ErrorSpec::Line { .. }));

        assert_eq!(test.new_errors.len(), 1);
        let error = test.new_errors.first().unwrap();
        assert!(matches!(error, ErrorSpec::Span { .. }));
    }

    #[test]
    fn tests10_data_638() {
        let (_, test) = parse_test(
            r"
#data
<svg><script></script><path>
#errors
(1,5) expected-doctype-but-got-start-tag
(1,28) expected-closing-tag-but-got-eof
#document
| <html>
|   <head>
|   <body>
|     <svg svg>
|       <svg script>
|       <svg path>

",
        );

        assert!(test.document.ends_with("path>"));
    }

    #[test]
    fn tests_inner_html_1_dat_837() {
        let (_, test) = parse_test(
            r"
#data
#errors
#document-fragment
html
#document
| <head>
| <body>

",
        );

        assert_eq!(test.data, "");
    }


#[test]
fn fixture_with_two_tests() {
    let input = "#data\nTest\n#errors\n(1,0): expected-doctype-but-got-chars\n#document\n| <html>\n\n#data\n<p>\n#errors\n#script-off\n#document\n| <p>\n";
    let tests = parse_fixture(input).unwrap();
    assert_eq!(tests.len(), 2);
    assert_eq!(tests[0].data, "Test");
    assert_eq!(tests[0].position, Position { line: 1, col: 1 });
    assert_eq!(tests[0].document, "| <html>");
    assert_eq!(tests[1].data, "<p>");
    assert_eq!(tests[1].position, Position { line: 8, col: 1 });
    assert!(tests[1].errors.is_empty());
    assert_eq!(tests[1].script_mode, ScriptMode::ScriptOff);
    assert_eq!(tests[1].document, "| <p>");
    assert_eq!(tests[1].parse().is_ok(), true);
}

#[test]
fn fixture_that_is_not_a_fixture() {
    assert!(parse_fixture("hello").is_err());
    assert!(parse_fixture("").is_err());
    let trailing = "#data\nx\n#errors\n#document\n| x\n\nnot a test\n";
    assert!(parse_fixture(trailing).is_err());
}

#[test]
fn quoted_blank_lines_are_kept_inside_data() {
    let input = "#data\n<p>\"\n\n\"</p>\n#errors\n#document\n| <p>\n";
    let tests = parse_fixture(input).unwrap();
    assert_eq!(tests.len(), 1);
    assert_eq!(tests[0].data, "<p>:quoted-double-newline:</p>");
}

#[test]
fn free_form_error_lines_become_messages() {
    let (_, t) = gosub::testing::tree_construction::test("#data\nx\n#errors\nfirst problem\r\nsecond problem\n#document\n| x\n\n").unwrap();
    assert_eq!(
        t.errors,
        vec![
            ErrorSpec::Message("first problem".to_string()),
            ErrorSpec::Message("second problem".to_string()),
        ]
    );
    assert_eq!(t.script_mode, ScriptMode::Both);
    assert_eq!(t.document_fragment, None);
}

#[test]
fn error_notations() {
    let (rest, e) = error_5("7: message  \nrest").unwrap();
    assert_eq!(e, ErrorSpec::Line { line: 7, message: "message".to_string() });
    assert_eq!(rest, "\nrest");
    assert!(error_5("x: message\n").is_none());
    assert!(error_5("99999999999999999999: too big\n").is_none());
    let (_, e) = error_6("(2:3-4:5)  keep spaces \n").unwrap();
    assert_eq!(
        e,
        ErrorSpec::Span {
            start: Position { line: 2, col: 3 },
            end: Position { line: 4, col: 5 },
            message: " keep spaces ".to_string(),
        }
    );
    let (_, t) = gosub::testing::tree_construction::test("#data\nx\n#errors\n3:4: located\n#new-errors\n(1:2) newer\n#document\n| x\n\n").unwrap();
    assert_eq!(
        t.errors,
        vec![ErrorSpec::Location { pos: Position { line: 3, col: 4 }, message: "located".to_string() }]
    );
    assert_eq!(
        t.new_errors,
        vec![ErrorSpec::Location { pos: Position { line: 1, col: 2 }, message: "newer".to_string() }]
    );
}

#[test]
fn trim_last_newline_trims_one() {
    assert_eq!(gosub::testing::tree_construction::trim_last_newline("a\n\n".to_string()), "a\n");
    assert_eq!(gosub::testing::tree_construction::trim_last_newline("a".to_string()), "a");
}

#[test]
fn missing_sections_fail() {
    assert!(data("#errors\n").is_none());
    assert!(data("#data\nno end").is_none());
    assert!(document("#document\n| x\n").is_none());
    assert!(gosub::testing::tree_construction::test("#data\nx\n#errors\n").is_none());
}
