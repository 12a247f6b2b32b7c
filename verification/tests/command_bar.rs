use awsdeck::ui::command_bar::hint_line;

fn footer_line(filter: &str, view: Vec<(&'static str, &'static str)>) -> String {
    hint_line(filter, &view).into_iter().map(|(_, piece)| piece).collect()
}

#[test]
fn hints_pinta_contexto_antes_de_globales() {
    let line = footer_line("", vec![("t", "logs por tiempo")]);
    assert!(line.contains("logs por tiempo"), "muestra el hint contextual: {line:?}");
    assert!(line.contains("cmd"), "y los globales: {line:?}");
    assert!(
        line.find("logs por tiempo") < line.find("cmd"),
        "los contextuales van antes que los globales: {line:?}"
    );
}

#[test]
fn hints_sin_contexto_son_solo_globales() {
    let line = footer_line("", vec![]);
    assert!(line.contains("cmd") && line.contains("salir"));
    assert!(!line.contains("logs por tiempo"), "sin view no hay contextuales: {line:?}");
}
