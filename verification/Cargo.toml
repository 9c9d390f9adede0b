[package]
name = "biome_to_eslint"
version = "0.1.0"
edition = "2021"
publish = false

[dependencies]
biome_analyze = "=0.5.7"
biome_diagnostics = "=0.5.7"
biome_formatter = "=0.5.7"
biome_js_analyze = "=0.5.7"
biome_js_factory = "=0.5.7"
biome_js_formatter = "=0.5.7"
biome_js_syntax = "=0.5.7"
biome_rowan = "=0.5.7"
serde_json = "=1.0.154"

# Not used by name. The biome crates above ask for "0.5.7" of these, which
# lets in 0.5.8 and 0.5.9; biome_js_syntax 0.5.7 does not compile against
# those, so they are held at 0.5.7 here.
biome_console = "=0.5.7"
biome_parser = "=0.5.7"
biome_text_edit = "=0.5.7"
biome_text_size = "=0.5.7"
biome_unicode_table = "=0.5.7"
