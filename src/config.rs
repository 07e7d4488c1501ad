//! The configurable commands: how an artifact is shown, and how the screen's
//! size is found.
use vstd::prelude::*;

verus! {

/// The commands read from the configuration file.
#[derive(Debug, Clone)]
pub struct Config {
    /// Shows an image; `{}` stands for its path.
    pub set_wallpaper_command: String,
    /// Prints the screen's width.
    pub get_screen_width_command: String,
    /// Prints the screen's height.
    pub get_screen_height_command: String,
}

/// The default command that prints the screen's width.
pub fn default_get_screen_width_command() -> (r: String)
    ensures
        r@ == r#"bash -c 'hyprctl monitors | head -n 2 | grep -oP "\d+(?=x.*@)"'"#@,
{
    r#"bash -c 'hyprctl monitors | head -n 2 | grep -oP "\d+(?=x.*@)"'"#.to_owned()
}

/// The default command that prints the screen's height.
pub fn default_get_screen_height_command() -> (r: String)
    ensures
        r@ == r#"bash -c 'hyprctl monitors | head -n 2 | grep -oP "(?<=x)\d+(?=@)"'"#@,
{
    r#"bash -c 'hyprctl monitors | head -n 2 | grep -oP "(?<=x)\d+(?=@)"'"#.to_owned()
}

/// The default command that shows an image.
pub fn default_set_wallpaper_command() -> (r: String)
    ensures
        r@ == "swaybg --mode fill --image {}"@,
{
    "swaybg --mode fill --image {}".to_owned()
}

impl Config {
    /// The configuration with every command at its default.
    pub fn new() -> (r: Config)
        ensures
            r.set_wallpaper_command@ == "swaybg --mode fill --image {}"@,
            r.get_screen_width_command@ == r#"bash -c 'hyprctl monitors | head -n 2 | grep -oP "\d+(?=x.*@)"'"#@,
            r.get_screen_height_command@ == r#"bash -c 'hyprctl monitors | head -n 2 | grep -oP "(?<=x)\d+(?=@)"'"#@,
    {
        Config {
            set_wallpaper_command: default_set_wallpaper_command(),
            get_screen_width_command: default_get_screen_width_command(),
            get_screen_height_command: default_get_screen_height_command(),
        }
    }
}

} // verus!
