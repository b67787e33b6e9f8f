use kei::seeds::{lex_seeds, SeedTok};

fn kinds(src: &str) -> Vec<(SeedTok, u32, u32, u32)> {
    lex_seeds(src).into_iter().map(|t| (t.kind, t.line, t.col, t.len)).collect()
}

#[test]
fn seed_tokens_positions_and_values() {
    let toks = kinds("seeds for f {\n  input { x: -12, s: \"a\\nb\" } # note\n}\n");
    assert_eq!(
        toks,
        vec![
            (SeedTok::Ident("seeds".to_string()), 1, 1, 5),
            (SeedTok::Ident("for".to_string()), 1, 7, 3),
            (SeedTok::Ident("f".to_string()), 1, 11, 1),
            (SeedTok::LBrace, 1, 13, 1),
            (SeedTok::Ident("input".to_string()), 2, 3, 5),
            (SeedTok::LBrace, 2, 9, 1),
            (SeedTok::Ident("x".to_string()), 2, 11, 1),
            (SeedTok::Colon, 2, 12, 1),
            (SeedTok::Int(-12), 2, 14, 3),
            (SeedTok::Comma, 2, 17, 1),
            (SeedTok::Ident("s".to_string()), 2, 19, 1),
            (SeedTok::Colon, 2, 20, 1),
            (SeedTok::Str("a\nb".to_string()), 2, 22, 6),
            (SeedTok::RBrace, 2, 29, 1),
            (SeedTok::RBrace, 3, 1, 1),
            (SeedTok::Eof, 4, 1, 0),
        ]
    );
}

#[test]
fn seed_tokens_edge_cases() {
    // An unterminated string runs to the end; a lone `-` is the integer 0;
    // an out-of-range integer is 0; unknown characters are skipped.
    assert_eq!(kinds("\"ab"), vec![(SeedTok::Str("ab".to_string()), 1, 1, 4), (SeedTok::Eof, 1, 5, 0)]);
    assert_eq!(kinds("- @ 99999999999999999999"), vec![
        (SeedTok::Int(0), 1, 1, 1),
        (SeedTok::Int(0), 1, 5, 20),
        (SeedTok::Eof, 1, 25, 0),
    ]);
    assert_eq!(kinds(""), vec![(SeedTok::Eof, 1, 1, 0)]);
}
