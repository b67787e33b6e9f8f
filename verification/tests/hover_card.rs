use kei::hover::{hover_markdown, CursorPosition};

const WITHDRAW: &str = "module contracts.withdraw

func withdraw(amount: Int) -> Int
  uses Database.Read, Database.Write
  requires amount > 0
  ensures result >= 0
{
  return amount
}
";

fn cursor_on_withdraw_name() -> CursorPosition {
    CursorPosition { line: 2, character: 8 }
}

#[test]
fn hover_shows_contract() {
    let md = hover_markdown(WITHDRAW, cursor_on_withdraw_name()).expect("hover on func name");
    assert!(md.contains("func withdraw("), "signature: {md}");
    assert!(md.contains("uses Database.Read, Database.Write"), "uses: {md}");
    assert!(md.contains("requires amount > 0"), "requires: {md}");
    assert!(md.contains("ensures result >= 0"), "ensures: {md}");
    assert!(md.contains("**uses**"), "uses note: {md}");
    assert!(md.contains("**requires**"), "requires note: {md}");
    assert!(md.contains("**ensures**"), "ensures note: {md}");
}

#[test]
fn hover_off_function_name_is_none() {
    let none = hover_markdown(WITHDRAW, CursorPosition { line: 0, character: 0 });
    assert!(none.is_none());
}

#[test]
fn hover_card_is_exact() {
    let md = hover_markdown(WITHDRAW, cursor_on_withdraw_name()).expect("hover on func name");
    let expected = "```kei\nfunc withdraw(amount: Int) -> Int\n  uses Database.Read, Database.Write\n  requires amount > 0\n  ensures result >= 0\n```\n\n**uses** — このコードが行ってよい副作用(ケーパビリティ)。宣言外のエフェクトはコンパイルエラー。\n\n**requires** — 呼び出し側が満たすべき事前条件(実行時アサーション)。\n\n**ensures** — この関数が保証する事後条件(`result` で戻り値を参照)。";
    assert_eq!(md, expected);
}

#[test]
fn hover_quotes_clause_source_verbatim() {
    let src = "module m\n\nfunc f(x: Int) -> Int\n  requires x   > 0 || x < -5\n{\n  return x\n}\n";
    let md = hover_markdown(src, CursorPosition { line: 2, character: 5 }).expect("hover");
    assert!(md.contains("requires x   > 0 || x < -5"), "{md}");
    assert!(!md.contains("**uses**"), "{md}");
}

#[test]
fn compute_diagnostics_flags_undeclared_effect() {
    let src = "module m

func writeRow(id: Int) -> Bool
  uses Database.Write
{
  return true
}

func save(id: Int) -> Bool {
  return writeRow(id)
}
";
    let diags = kei::hover::compute_diagnostics(src);
    assert!(diags.iter().any(|d| d.code.starts_with("KEI-E3")), "expected an effect diagnostic, got: {diags:?}");
}

#[test]
fn compute_diagnostics_clean_source_is_empty() {
    let diags = kei::hover::compute_diagnostics(WITHDRAW);
    assert!(diags.is_empty(), "unexpected diagnostics: {diags:?}");
}
