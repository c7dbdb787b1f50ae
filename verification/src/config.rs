//! Fixed display configuration: the terminal color codes, the gap between
//! the two columns, and the ASCII-art logo.

use vstd::prelude::*;
use vstd::string::*;

verus! {

pub const BLACK: &'static str = "\x1b[0;30m";

pub const DARK_GRAY: &'static str = "\x1b[1;30m";

pub const LIGHT_GRAY: &'static str = "\x1b[0;37m";

pub const WHITE: &'static str = "\x1b[1;37m";

pub const BLUE: &'static str = "\x1b[0;34m";

pub const LIGHT_BLUE: &'static str = "\x1b[1;34m";

pub const CYAN: &'static str = "\x1b[0;36m";

pub const GREEN: &'static str = "\x1b[0;32m";

pub const PURPLE: &'static str = "\x1b[0;35m";

pub const YELLOW: &'static str = "\x1b[1;33m";

pub const RED: &'static str = "\x1b[0;31m";

/// The reset code that ends every colored span.
pub const NC: &'static str = "\x1b[0m";

/// The space left between the logo column and the info column.
pub const GAP: usize = 4;

/// One logo row: its indentation, then the accent color, the art, and the
/// reset.
pub open spec fn spec_logo_row(indent: Seq<char>, art: Seq<char>) -> Seq<char> {
    indent + LIGHT_BLUE@ + art + NC@
}

fn logo_row(indent: &str, art: &str) -> (r: String)
    ensures
        r@ == spec_logo_row(indent@, art@),
{
    let mut r = String::from_str(indent);
    r.append(LIGHT_BLUE);
    r.append(art);
    r.append(NC);
    proof {
        assert(r@ =~= spec_logo_row(indent@, art@));
    }
    r
}


/// The logo as a sequence of row texts.
pub open spec fn spec_logo() -> Seq<Seq<char>> {
    seq![
        spec_logo_row("        "@, "░ ░░░░                            ░░░░░░"@),
        spec_logo_row("        "@, "░░░░░░                            ░░░░░░"@),
        spec_logo_row("        "@, "░░░▓▓░░░░   ░░░░░░░░░░░░░░░░░  ░░░░▒▒░░"@),
        spec_logo_row("         "@, "░░▓▓▓▓▓▓░░░░░▒▒▒▒▒▒▒▒▒▒▒▒░░░░░▒▒▒▒▒▒░░"@),
        spec_logo_row("           "@, "░▓▓▓▓▓▓▓▓▓░░░▒▒▒▒▒▒▒▒░░░▒▒▒▒▒▒▒▒▒▒░"@),
        spec_logo_row("           "@, "░░▓▓▓▓▓▓▓▓▓▓▒░░▒▒▒▒░░▒▒▒▒▒▒▒▒▒▒▒░░"@),
        spec_logo_row("        "@, "░░░▒▓▓░░░░░░░░░▓▓░░▒▒░░▒▒░░░░░░░░░▒▒░░░░"@),
        spec_logo_row("        "@, "░░▓▓▓░   ░██░░░░▓▓░░░▒▒▒░░▒░██░░░░░▒▒▒░░"@),
        spec_logo_row("        "@, "░░▓▓░░ ░░██░░░█░░▓▓░░▒▒░░▒░░░██░  ░░▒▒░"@),
        spec_logo_row("        "@, "░░▓▓░  ░░███▓█▓░░▓▓░░▒▒░░██▓███░░ ░░▒▒░░"@),
        spec_logo_row("        "@, "░░▓▓░░   ░░█▓░░░░▓▓░░▒▒░░░░▓█░░   ░░▒▒░░"@),
        spec_logo_row("         "@, "░░▓▓░░░░  ░░░░▒▓▓░░░░▒▒░░░░░░  ░░░░▒▒░░░"@),
        spec_logo_row("        "@, "░░░░▓▓▓▓░░░░░▓▓▓▒░░▒▒░░▒▒▒▒░░░░░▒▒▒▒░░░░"@),
        spec_logo_row("           "@, "░░░░▓▓▓▓▓▓▒░░░░░▒▒░░░░░▒▒▒▒▒▒▒░░░░"@),
        spec_logo_row("           "@, "░░░▒▒░░░░░▒▒▒▒▒░░░░▒▒▒▒▒░░░░░▒▒░░░"@),
        spec_logo_row("           "@, "░░░░░▒▒▒▒▒▒▒▒▒▒▒▒▒▒▒▒▒▒▒▒▒▒▒▒░░░░░"@),
        spec_logo_row("              "@, "░░░░▒▒▒▒▒▒▒▒▒▒▒▒▒▒▒▒▒▒▒▒░░░░"@),
        spec_logo_row("                 "@, "░░▒▒▒▒▒▒▒▒▒▒▒▒▒▒▒▒▒░░░"@),
        spec_logo_row("                 "@, "░░░░▒▒▒▒▒▒▒▒▒▒▒▒▒▒░░░░"@),
        spec_logo_row("                   "@, "░░░░▒▒▒▒▒▒▒▒▒▒░░░░"@),
        spec_logo_row("                      "@, "░░░▒▒▒▒▒▒░░░"@),
        spec_logo_row("                      "@, "░░░░░▒▒░░░░░"@),
        spec_logo_row("                         "@, "░░░░░░"@),
    ]
}

/// Builds the colored ASCII-art logo, one string per row.
pub fn get_logo() -> (r: Vec<String>)
    ensures
        r.deep_view() == spec_logo(),
{
    let mut r: Vec<String> = Vec::new();
    r.push(logo_row("        ", "░ ░░░░                            ░░░░░░"));
    r.push(logo_row("        ", "░░░░░░                            ░░░░░░"));
    r.push(logo_row("        ", "░░░▓▓░░░░   ░░░░░░░░░░░░░░░░░  ░░░░▒▒░░"));
    r.push(logo_row("         ", "░░▓▓▓▓▓▓░░░░░▒▒▒▒▒▒▒▒▒▒▒▒░░░░░▒▒▒▒▒▒░░"));
    r.push(logo_row("           ", "░▓▓▓▓▓▓▓▓▓░░░▒▒▒▒▒▒▒▒░░░▒▒▒▒▒▒▒▒▒▒░"));
    r.push(logo_row("           ", "░░▓▓▓▓▓▓▓▓▓▓▒░░▒▒▒▒░░▒▒▒▒▒▒▒▒▒▒▒░░"));
    r.push(logo_row("        ", "░░░▒▓▓░░░░░░░░░▓▓░░▒▒░░▒▒░░░░░░░░░▒▒░░░░"));
    r.push(logo_row("        ", "░░▓▓▓░   ░██░░░░▓▓░░░▒▒▒░░▒░██░░░░░▒▒▒░░"));
    r.push(logo_row("        ", "░░▓▓░░ ░░██░░░█░░▓▓░░▒▒░░▒░░░██░  ░░▒▒░"));
    r.push(logo_row("        ", "░░▓▓░  ░░███▓█▓░░▓▓░░▒▒░░██▓███░░ ░░▒▒░░"));
    r.push(logo_row("        ", "░░▓▓░░   ░░█▓░░░░▓▓░░▒▒░░░░▓█░░   ░░▒▒░░"));
    r.push(logo_row("         ", "░░▓▓░░░░  ░░░░▒▓▓░░░░▒▒░░░░░░  ░░░░▒▒░░░"));
    r.push(logo_row("        ", "░░░░▓▓▓▓░░░░░▓▓▓▒░░▒▒░░▒▒▒▒░░░░░▒▒▒▒░░░░"));
    r.push(logo_row("           ", "░░░░▓▓▓▓▓▓▒░░░░░▒▒░░░░░▒▒▒▒▒▒▒░░░░"));
    r.push(logo_row("           ", "░░░▒▒░░░░░▒▒▒▒▒░░░░▒▒▒▒▒░░░░░▒▒░░░"));
    r.push(logo_row("           ", "░░░░░▒▒▒▒▒▒▒▒▒▒▒▒▒▒▒▒▒▒▒▒▒▒▒▒░░░░░"));
    r.push(logo_row("              ", "░░░░▒▒▒▒▒▒▒▒▒▒▒▒▒▒▒▒▒▒▒▒░░░░"));
    r.push(logo_row("                 ", "░░▒▒▒▒▒▒▒▒▒▒▒▒▒▒▒▒▒░░░"));
    r.push(logo_row("                 ", "░░░░▒▒▒▒▒▒▒▒▒▒▒▒▒▒░░░░"));
    r.push(logo_row("                   ", "░░░░▒▒▒▒▒▒▒▒▒▒░░░░"));
    r.push(logo_row("                      ", "░░░▒▒▒▒▒▒░░░"));
    r.push(logo_row("                      ", "░░░░░▒▒░░░░░"));
    r.push(logo_row("                         ", "░░░░░░"));
    proof {
        assert(r.deep_view() =~= spec_logo());
    }
    r
}

} // verus!

