# corne_display

Status pictures for the two OLED panels of a Corne split keyboard, drawn and
verified with [Verus](https://github.com/verus-lang/verus).

Each half carries a 128x32 panel mounted upright. The left one shows the battery
and the active layer. The right one shows the battery above two columns that read
from bottom to top: held modifiers and typing speed in the left column; in the right
one the connection to the host (`BT`, `BT?` while looking for a host, `USB`), `CAPS`
while Caps Lock is on, and a sparkline of the last forty typing speeds, taken at most
once a second. After half a minute without a key press the picture pulses; after seven
minutes of sleep the panel goes blank; a key press brings it back.

| Module | Contents |
|---|---|
| `display` | `LeftRenderer`, `RightRenderer` |
| `activity` | idle and sleep tracking, the pulse |
| `battery`, `layer` | the battery zone, and the layer zone of the left panel |
| `status` | the left column of the right panel |
| `link`, `sparkline` | the right column of the right panel |
| `dither` | dimming |
| `frame`, `geometry` | the picture, the quarter turn for sideways text |
| `raster` | text and rectangles, drawn by `embedded-graphics` |
| `label` | short texts, built in a `heapless` string |
| `context` | the keyboard state that is shown |
| `clock` | the time, from `embassy-time` |

A picture is modelled as the set of its lit points. The contracts say, point by
point, what each function lights; what the glyphs of a text look like is left to
`embedded-graphics` and enters the contracts under the name `text_raster`.

`app/` connects the library to the RMK firmware. The library is an ordinary `std` crate
(it keeps lists of pixels in `Vec`), so a firmware image needs a target on which `std`
can be linked.
