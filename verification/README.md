# x-desk

x-desk shows video or web content as the Windows desktop wallpaper, one
content process per monitor, attached behind the desktop icons.

This crate holds the decisions of x-desk as a library verified with Verus.
Each public function states what it returns in its `ensures`, and the
properties that span several calls are proof functions named `law_*`.

- `config`, `video_config`: the wallpaper configuration by monitor index.
- `main_ui`: the settings window's rules for local and internet videos,
  `file://` URLs, previews and the monitor layout.
- `occlusion`: which docks count as occluded (at most 5 % of a dock left
  visible).
- `main_window`, `watcher`: how desktop events turn into refreshes and
  resets, with the reset after an Explorer restart coalesced.
- `docks`: the docks by monitor, their content processes and the pause and
  resume commands that follow occlusion changes.
- `content`, `args`: the command lines and the pipe protocol of the content
  processes.
- `webview`: what the web view process makes of its source, including the
  rewriting of `file:///` URLs in inline HTML to virtual hosts.
- `single_instance`, `wide_string`, `hooks`, `desktop`, `hyperlink`,
  `theme`: kernel object names, UTF-16 strings, window-destruction hooks,
  desktop attachment styles, label geometry and the system theme.
- `text`, `numbers`, `win_path`, `vec_util`: the text, number and Windows
  path handling that the rest is stated over.

`app/` holds the program around the library: reading and writing the
configuration file, and resolving the paths that the web view loads.
