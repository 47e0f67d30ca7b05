# PixHub

PixHub serves a collection of pictures and videos from a disk over HTTP: a random one, those
that a search finds, and the files themselves.

- `src/` is the library. It holds what the server decides, and is verified with Verus: every
  function says what it returns in `requires` and `ensures`. It does no I/O. A handler is a few
  steps; each takes what the database or the disk gave back and says what is next.
- `app/` is the server around it: it reads requests, runs the statements on SQLite, reads
  files, follows the changes of the disk and sends the replies.
- `tests/` runs the library.

| Request | Answer |
|---|---|
| `GET /pixiv/artworks/random` | any picture, with links to its pages |
| `GET /pixiv/artworks/info?list={name}` | a picture by its name, or by a part of it |
| `GET /pixiv/artworks/view` | any picture itself |
| `GET /pixiv/artworks/file/{name}` | a picture by its name |
| `GET /pixiv/artworks/file` | the picture that the session was last shown |
| `GET /plus/artworks/random` | any video, with a link to it |
| `GET /plus/artworks/info?list={author or all}` | the videos of authors, or all authors |
| `GET /plus/artworks/view` | sends on to any video |
| `GET /plus/artworks/file/{name}` | a video by its name, or a part of it |

The environment sets `HOST`, `PORT`, `RESOURCES`, `STORAGE_NAME`, `ALLOW_EMPTY_REFERER`,
`REFERERS`, `CORS_ORIGIN`, `RATE_LIMIT_WINDOW` (minutes), `RATE_LIMIT_MAX` and `LOG_LEVEL`.
Pictures lie in `RESOURCES/pixiv/{number}/`, videos in `RESOURCES/plus/{number}/`. The start
page is read from `public/`.
