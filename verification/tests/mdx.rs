use toast::headings::{ATXHeading, Heading, atx_heading};
use toast::mdx::{MdxFile, parse};
use toast::mdx_ast::MdxAst;
use toast::mdx_error::MDXError;

#[test]
fn parse_atx_heading() {
    let (heading, rest) = atx_heading(b"# boop", 0).unwrap();
    assert_eq!(
        heading,
        ATXHeading {
            level: 1,
            value: b"boop".to_vec()
        }
    );
    assert_eq!(rest, b"# boop".len());
}

#[test]
fn test_parse_mdx_file() {
    assert_eq!(
        parse(b"# boop"),
        Ok(MdxFile {
            contents: vec![MdxAst::Heading(Heading::ATXHeading(ATXHeading {
                level: 1,
                value: b"boop".to_vec()
            }))]
        })
    );
}

#[test]
fn test_parse_mdx_file_headings() {
    assert_eq!(
        parse(
            b"# boop
## second
### third
#### fourth
##### fifth
###### sixth"
        ),
        Ok(MdxFile {
            contents: vec![
                MdxAst::Heading(Heading::ATXHeading(ATXHeading {
                    level: 1,
                    value: b"boop".to_vec()
                })),
                MdxAst::Heading(Heading::ATXHeading(ATXHeading {
                    level: 2,
                    value: b"second".to_vec()
                })),
                MdxAst::Heading(Heading::ATXHeading(ATXHeading {
                    level: 3,
                    value: b"third".to_vec()
                })),
                MdxAst::Heading(Heading::ATXHeading(ATXHeading {
                    level: 4,
                    value: b"fourth".to_vec()
                })),
                MdxAst::Heading(Heading::ATXHeading(ATXHeading {
                    level: 5,
                    value: b"fifth".to_vec()
                })),
                MdxAst::Heading(Heading::ATXHeading(ATXHeading {
                    level: 6,
                    value: b"sixth".to_vec()
                }))
            ]
        })
    );
}

#[test]
fn too_many_hashes_is_an_error() {
    assert_eq!(parse(b"####### seven"), Err(MDXError::TooManyHashes));
}

#[test]
fn non_heading_input_is_an_error() {
    assert_eq!(parse(b"plain text"), Err(MDXError::Nom { at: 0 }));
}

#[test]
fn empty_input_is_an_empty_file() {
    assert_eq!(parse(b""), Ok(MdxFile { contents: vec![] }));
}

#[test]
fn heading_must_end_its_line() {
    // After the title, only a line ending or the end of input may follow.
    assert_eq!(parse(b"# boop!"), Err(MDXError::Nom { at: 6 }));
}
