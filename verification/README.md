# Dog Adventure

A small platformer in which a dog fetches its tennis ball, avoiding spikes,
lava and crawling babies.

`src/` is the verified library (Verus):

- `level` — the level file format: lines, words, tags; `parse_level` and
  `build_level`, with laws on reading line by line and on lines that
  describe nothing.
- `icon` — the 16×16 pixel-art window icon and its nearest-neighbour
  enlargements.
- `control` — the dog's movement direction, facing, jump buffer and coyote
  time, with laws on when a jump happens.
- `game` — the discrete state of a game (screen, level, deaths, food,
  goal), with laws on food counting, fetching and resetting.
- `frame` — the decisions of one frame of the game loop, as a list of
  commands.
- `chance` — whether a poop scares a baby.

`app/` is the program: window, input, floating-point motion and
collisions, and drawing, with macroquad.  It reads the level files
`levels/level1.txt`, `levels/level2.txt` and `levels/level3.txt` at start;
those data files are not part of this crate and must be supplied beside the
program.
