//! A type-level string, which is a string that is encoded in the type system:
//! each fixed string is its own zero-sized type, built as a chain of
//! per-character links ending in a terminal marker, so that equal strings are
//! the identical type and distinct strings are incompatible types.

mod chain;
mod chars;
mod generator;
mod intern;
mod sealed;
mod text;

pub use chain::Cons;
pub use chain::Nil;
pub use chain::Symbol;
pub use chain::SymbolBounds;
pub use chain::lemma_same_type_same_value;
pub use chars::Chars;
pub use chars::Empty;
pub use chars::SymbolChars;
pub use chars::collect_code_points;
pub use chars::collect_code_points_rev;
pub use generator::spec_decimal;
pub use generator::spec_digit_char;
pub use generator::spec_type_expr;
pub use generator::symbol_type_expr;
pub use intern::InternStore;
pub use text::all_scalars;
pub use text::char_utf8_len;
pub use text::chars_of;
pub use text::code_points_of;
pub use text::lemma_utf8_len_bounds;
pub use text::lemma_utf8_len_matches_encoding;
pub use text::spec_debug_text;
pub use text::spec_scalar_utf8_len;
pub use text::spec_utf8_len;
