pub mod activity;
pub mod drawing_laws;
pub mod editor_key_laws;
pub mod editor_laws;
pub mod hints;
pub mod list_laws;
pub mod list_picker;
pub mod model_laws;
pub mod model_picker;
pub mod model_rows;
pub mod picker_key_laws;
pub mod prompt_editor;
pub mod row_laws;
pub mod status_laws;
pub mod suggest_panel;
pub mod thinking_laws;
pub mod thinking_picker;
pub mod wrap;
