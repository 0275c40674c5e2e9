# bevy_intl

Translations for Bevy applications, with the lookup logic verified by Verus.

- `src/` is the verified library: string-keyed maps, translation values,
  parsing translation JSON (through `serde_json`) into maps, the loaders'
  decisions and file naming, placeholder filling (through `regex`), plural
  and gender selection, language switching, and the laws that tie them
  together.
- `app/` is the Bevy side: the plugin, the resources, walking the `messages`
  folder, and the `App` extension trait.
- `tests/` runs the library on concrete translations.

Translation files live in `messages/<lang>/<file>.json`; a value is either a
text or an object of texts (plural forms such as `"one"`, `"few"`, `"many"`,
exact counts such as `"0"`, or genders). `{{name}}` placeholders are replaced
by arguments in order.
