pub mod box_to_dvi;
pub mod boxes;
pub mod category;
pub mod dimension;
pub mod dvi;
pub mod font;
pub mod font_metrics;
pub mod glue;
pub mod lexer;
pub mod line_breaking;
pub mod list;
pub mod makro;
pub mod math_code;
pub mod math_list;
pub mod parser;
pub mod state;
pub mod token;
