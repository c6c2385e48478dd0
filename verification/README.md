# goose_cli branding

The branding layer of a CLI that ships under several names, verified with Verus.

- `src/brand.rs`: the `Brand` record, its goose defaults, the brand that a build's
  overrides select, and the brand-derived prompt, banner and title.
- `src/style.rs`: the interactive style a brand selects.
- `src/text.rs`, `src/phrase.rs`: text as character sequences; replacing a pattern
  everywhere, and replacing a phrase only where it stands alone as a word.
- `src/rebrand.rs`: rewriting the default product nouns of a help text to a brand's.
- `src/parking.rs`: why parking the shell aliases under placeholders and restoring
  them gives the text back, and that a brand with the default names rewrites nothing.
- `src/help.rs`: the branding pass over a command tree held as plain help texts.
- `src/manifest.rs`: the `[[bin]]` target names of a Cargo manifest.
- `app/lib.rs`: the brand of this build (`GOOSE_BRAND_*`, read at compile time), and
  reading and writing the help texts of a `clap::Command` around the verified pass.
