use bevy_rui::widgets::code_editor::RuiCodeEditor;
use bevy_rui::widgets::highlight::{lines_with_endings, RuiSyntaxAssets, StyledSegment};

#[test]
fn lines_keep_their_breaks() {
    assert_eq!(lines_with_endings("foo\nbar\nbaz"), vec!["foo\n", "bar\n", "baz"]);
    assert_eq!(lines_with_endings("a\n"), vec!["a\n"]);
    assert_eq!(lines_with_endings("\n\n"), vec!["\n", "\n"]);
    assert!(lines_with_endings("").is_empty());
}

#[test]
fn lines_rebuild_the_text() {
    let text = "fn main() {\n    let x = 1;\n}\n";
    assert_eq!(lines_with_endings(text).concat(), text);
}

#[test]
fn default_assets_use_ocean_theme() {
    let assets = RuiSyntaxAssets::default();
    assert_eq!(assets.default_theme, "base16-ocean.dark");
}

#[test]
fn highlighting_covers_each_line() {
    let assets = RuiSyntaxAssets::new();
    let text = "fn main() {\n    let x = 1;\n}";
    let lines = assets.highlight_code("rs", text).unwrap();
    assert_eq!(lines.len(), 3);
    let pieces: Vec<String> = lines
        .iter()
        .map(|segs| segs.iter().map(|s| s.text.clone()).collect::<String>())
        .collect();
    assert_eq!(pieces, vec!["fn main() {\n", "    let x = 1;\n", "}"]);
}

#[test]
fn unknown_language_falls_back_to_plain_text() {
    let assets = RuiSyntaxAssets::new();
    let lines = assets.highlight_code("no-such-language", "hello\nworld").unwrap();
    assert_eq!(lines.len(), 2);
    let first: String = lines[0].iter().map(|s| s.text.clone()).collect();
    assert_eq!(first, "hello\n");
}

#[test]
fn editor_text_is_highlighted_per_line() {
    let assets = RuiSyntaxAssets::new();
    let editor = RuiCodeEditor::new("let a = 1;\nlet b = 2;\n", "rs".to_string());
    let lines = editor.highlighted(&assets).unwrap();
    assert_eq!(lines.len(), 2);
    let second: String = lines[1].iter().map(|s| s.text.clone()).collect();
    assert_eq!(second, "let b = 2;\n");
}

fn colours(line: &[StyledSegment]) -> Vec<(u8, u8, u8, u8)> {
    let mut seen: Vec<(u8, u8, u8, u8)> = Vec::new();
    for s in line {
        let c = (s.r, s.g, s.b, s.a);
        if !seen.contains(&c) {
            seen.push(c);
        }
    }
    seen
}

#[test]
fn rust_code_gets_several_colours() {
    let assets = RuiSyntaxAssets::new();
    let lines = assets.highlight_code("rs", "fn main() { let x = 1; }\n").unwrap();
    assert_eq!(lines.len(), 1);
    assert!(colours(&lines[0]).len() > 1);
}

#[test]
fn plain_text_gets_one_colour_per_line() {
    let assets = RuiSyntaxAssets::new();
    let lines = assets.highlight_code("no-such-language", "fn main() { let x = 1; }\n").unwrap();
    assert_eq!(lines.len(), 1);
    assert_eq!(colours(&lines[0]).len(), 1);
}

#[test]
fn highlighting_is_repeatable() {
    let assets = RuiSyntaxAssets::new();
    let text = "fn main() {\n    let x = \"a\";\n}\n";
    let a = assets.highlight_code("rs", text).unwrap();
    let b = assets.highlight_code("rs", text).unwrap();
    let view = |ls: &Vec<Vec<StyledSegment>>| -> Vec<Vec<(u8, u8, u8, u8, String)>> {
        ls.iter().map(|l| l.iter().map(|s| (s.r, s.g, s.b, s.a, s.text.clone())).collect()).collect()
    };
    assert_eq!(view(&a), view(&b));
}

#[test]
fn assets_say_when_they_can_highlight() {
    let assets = RuiSyntaxAssets::new();
    assert!(assets.can_highlight("rs"));
    assert!(assets.can_highlight("no-such-language"));
    let mut no_theme = RuiSyntaxAssets::new();
    no_theme.default_theme = "no such theme".to_string();
    assert!(!no_theme.can_highlight("rs"));
    let mut no_syntaxes = RuiSyntaxAssets::new();
    no_syntaxes.syntax_set = syntect::parsing::SyntaxSet::new();
    assert!(!no_syntaxes.can_highlight("rs"));
    assert!(!no_syntaxes.can_highlight("no-such-language"));
}
