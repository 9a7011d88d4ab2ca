//! A library that renders trees of code-structure descriptions (functions,
//! conditionals, loops, structs, identifiers, raw text) into C-like source
//! text, under a configurable house style: brace placement, indentation
//! character and width, newline convention, and identifier casing.
//!
//! A caller builds a tree of renderable nodes, picks a style configuration
//! (or one of the named presets), and asks the root node for its text. The
//! configuration flows down the tree; every composite derives an adjusted
//! copy for its children, so siblings never observe each other's changes.

mod as_case;
mod data_type_generators;
mod flow_control_generators;
mod building_block_generators;
mod render;
mod setup;
mod text;

pub use as_case::AsCase;
pub use as_case::CASE_SEPARATOR;
pub use as_case::Cased;
pub use as_case::lemma_casify_round_trip;
pub use as_case::lemma_casing_paths_agree;
pub use as_case::spec_all_lower_words;
pub use as_case::spec_canonical_fragments;
pub use as_case::spec_emit;
pub use as_case::spec_flatten;
pub use as_case::spec_is_lower_word;
pub use as_case::spec_cased_text;
pub use as_case::spec_casify;
pub use as_case::spec_split_fragments;
pub use as_case::split_fragments;
pub use as_case::is_ascii_lower;
pub use as_case::is_ascii_upper;
pub use as_case::spec_is_ascii_lower;
pub use as_case::spec_is_ascii_upper;
pub use as_case::spec_to_lower;
pub use as_case::spec_to_upper;
pub use as_case::to_lower;
pub use as_case::to_upper;
pub use building_block_generators::CodeBody;
pub use building_block_generators::CodeSet;
pub use building_block_generators::Indentation;
pub use building_block_generators::JoinedCode;
pub use building_block_generators::NewLine;
pub use building_block_generators::RawCode;
pub use building_block_generators::SeparatedCode;
pub use building_block_generators::HeaderPlusBody;
pub use data_type_generators::ConstDefine;
pub use data_type_generators::Enum;
pub use data_type_generators::Function;
pub use data_type_generators::FunctionCall;
pub use data_type_generators::FunctionDeclaration;
pub use data_type_generators::FunctionSignature;
pub use data_type_generators::HeaderFile;
pub use data_type_generators::Struct;
pub use data_type_generators::TypeDef;
pub use data_type_generators::spec_call_node;
pub use data_type_generators::spec_const_define_node;
pub use data_type_generators::spec_enum_node;
pub use data_type_generators::spec_header_file_node;
pub use data_type_generators::spec_param_node;
pub use data_type_generators::spec_params_nodes;
pub use data_type_generators::spec_signature_node;
pub use data_type_generators::spec_struct_node;
pub use data_type_generators::spec_typedef_node;
pub use flow_control_generators::ForLoop;
pub use flow_control_generators::IfStatement;
pub use flow_control_generators::WhileStatement;
pub use flow_control_generators::spec_for_node;
pub use flow_control_generators::spec_if_node;
pub use flow_control_generators::spec_while_node;
pub use render::Node;
pub use render::NodeV;
pub use render::height;
pub use render::height_list;
pub use render::int_to_chars;
pub use render::node_view;
pub use render::nodes_view;
pub use render::render_body_text;
pub use render::render_text;
pub use render::spec_render;
pub use render::spec_render_body;
pub use render::spec_render_group;
pub use render::spec_render_joined;
pub use render::spec_render_separated;
pub use render::Name;
pub use render::raw_node;
pub use render::NameType;
pub use render::RenderError;
pub use render::lemma_block_depth;
pub use render::lemma_canonical_fragments_wf;
pub use render::lemma_frag_cased_len;
pub use render::lemma_identifier_nonempty;
pub use render::lemma_nodes_view;
pub use render::lemma_nodes_view_push;
pub use render::lemma_render_deterministic;
pub use render::lemma_style_independence;
pub use render::lemma_supported_style_renders;
pub use render::spec_style_compatible;
pub use render::spec_is_layout_char;
pub use render::spec_tokens;
pub use render::spec_assemble_body;
pub use render::spec_body_cfg;
pub use render::spec_close_cfg;
pub use render::spec_glue_text;
pub use render::spec_align_text;
pub use render::spec_indent_text;
pub use render::spec_nl_text;
pub use render::spec_raw_text;
pub use render::spec_style_supported;
pub use render::spec_digit_char;
pub use render::spec_int_text;
pub use render::spec_udec_text;
pub use render::spec_case_for;
pub use text::chars_to_string;
pub use text::copy_chars;
pub use text::push_onto;
pub use text::parts_view;
pub use text::str_to_chars;
pub use setup::CaseType;
pub use setup::CodeGenerate;
pub use setup::DisplayExt;
pub use setup::DisplayHandler;
pub use setup::CaseTypes;
pub use setup::CodeGenerationInfo;
pub use setup::CodeStyle;
pub use setup::GeneratorContext;
pub use setup::IndentationStyle;
pub use setup::IndentationType;
pub use setup::NewLineType;
